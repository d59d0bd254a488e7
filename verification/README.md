# maolan_sampler

The verified core of the Maolan sampler plugin, written in Verus. Every function in
`src/` carries a contract that Verus proves; the contracts speak of mathematical
models (sequences, maps, spec functions) of the sampler's data.

## Layout

- `src/` — the library:
  - SFZ text: comment removal (`sfz_comments`), `#define`/`#if`/`#include`
    handling (`sfz_preprocess`, `sfz_directives`), tokenizing (`sfz_tokenize`), the
    group/region layout of a file (`sfz_layout`), opcode maps (`sfz_opcode_map`),
    opcode classification (`sfz_opcodes`, `sfz_handled`), values and words
    (`sfz_values`, `sfz_numbers`, `sfz_names`, `zone_modes`, `zone_conditions`),
    building a zone from a region (`sfz_region`), building an instrument's groups and
    zones from the layout, with each sample's file found from the instrument's folder
    (`sfz_build`), and writing SFZ: headers and region opcodes (`sfz_export`) and the
    whole document (`sfz_document`).
  - The engine's tables: modulation sources and targets (`mod_matrix`), parameter
    ids (`params`), when a group plays (`group`), which zone a note plays
    (`zone_lookup`), and which voice a new note takes (`voice_alloc`).
  - The instrument editor: its option lists (`editor_options`), zones and groups
    (`zones`), editing zones on the key/velocity map (`zone_map`), the zone list with
    undo (`zone_list`), keeping the editor and the patch in step (`editor_sync`), note
    labels (`note_names`), the opcode text box (`opcode_text`), the file browser
    (`browser`), file kinds and the shown file name (`file_kinds`), load status
    (`load_status`) and Aria `.ariax` presets (`ariax`, reading XML with `quick-xml`).
  - `text` — character-level helpers shared by the above.
- `tests/` — tests of the library on concrete values.
- `app/` — the file-system side: reading SFZ files with their includes into an
  instrument, exporting an instrument with its sample files, `.ariax` files and
  directories, and typed opcode values that carry floating point.
