# gerber_dfm

Parsing of RS-274X Gerber and Excellon drill files for design-for-manufacturing previews,
verified with Verus.

The library (`src/`) holds everything that decides what a file means:

- `text` — character-level helpers (trim, ASCII case, search, splitting, integer parsing) with
  specifications over `Seq<char>`.
- `layer` — layer purpose from the file name, extension and, for `.txt` files, the contents.
- `gerber` — splitting a Gerber file into commands, the letter/value fields of a command,
  format digit pairs and coordinate numbers.
- `gerber_machine` — the Gerber interpreter's graphics state (format, units, apertures, macros,
  regions, polarity, warnings) and the steps it asks for, as a verified state machine.
- `gerber_laws` — properties of whole plans: warnings are distinct and come from the commands
  they describe, macros are balanced, clear polarity draws nothing, letter case does not matter.
- `drill` — the Excellon interpreter: header, tools, hits and slots, and the end of program.
- `number` — coordinate numbers kept exact: a decimal literal, or sign, mantissa and powers of ten.

`app/` is the WebAssembly shell: it turns the library's exact numbers into millimetres
(`f64`), applies the planned steps to the layer geometry, renders SVG and serialises the
analysis for JavaScript.
