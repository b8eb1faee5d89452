# gcode_parser

A G-code parser whose every parser is proved correct with Verus against a grammar
written as spec functions over the bytes of the input.

- `src/text.rs`: bytes, white space, case-insensitive matching and the `ParseResult`
  shape shared by all parsers (the unconsumed rest and the value).
- `src/value.rs`: exact decimal numbers, parameters and values; `src/expression.rs`:
  bracketed expressions; `src/word.rs`: code words such as `G1` or `G28.1`.
- `src/token/`: the tokens of a line (G- and M-codes, coordinates, arcs, comments,
  assignments, calls, returns), lines, and the control-flow blocks (`o100 while ...`),
  which nest lines in turn.
- `src/tokenizer/`: a word-table token set: the modal groups of G- and M-codes as enums,
  the whole G- and M-code tables, tool number, spindle speed and feed rate words,
  bracketed expressions, lettered arcs, a few byte-level helpers, and whole programs
  (`program`, `Tokenizer`).
- `app/`: floating-point conversions of parsed numbers.
- `tests/`: examples of each parser on concrete input.
