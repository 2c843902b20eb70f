# chart_converter

Converts rhythm-game charts between the C2S, SUS and UGC text formats through
one shared chart model, and renders XLAIR-compatible SUS charts as SVG.

## Layout

- `src/` is the verified library. Every function there carries a contract
  that Verus proves: exact fractions of beats (`position`, `beat`), measures of
  changing length (`timeline`), lanes and slide paths (`note`), the fields,
  codes, records and positions of each format (`c2s`, `c2s_records`, `sus`,
  `ugc`, `text`), how SUS slides and long notes are put together from their
  tokens (`slides`), which note an AIR record stands on (`air_parent`), the
  order in which SUS lists notes (`note_order`), the order of a writer's
  records (`record_order`), the lines each writer makes of a note
  (`c2s_notes`, `sus_standard`, `sus_xlair`, `ugc_notes`), how documents are
  put together (`sus_xlair_body`, `sus_standard_body`, `ugc_document`,
  `c2s_notes`), how SUS and UGC lines are read (`sus_lines`,
  `sus_data_lines`, `sus_standard_read`, `ugc_long`), source decoding
  (`format`) and the conversion errors (`converter`, `error`).
- `app/` holds what the library cannot: the chart model, whose tempos, scroll
  speeds and AIR heights are floating-point values, the loops of the parsers
  and writers that build and read it by calling the library, the SVG geometry
  and the WebAssembly binding.
- `tests/` exercises the library on concrete values.

The proof functions named `lemma_…` that are public state the properties the
library keeps across calls: reduced fractions, measure placement that finds
positions again, codes and decimals that read back, notes listed after the
notes they hang from, slides gathered in time order, measure lengths that
can be set in any order and move only the measures after them.
