# pomsky

The parser of the pomsky regular-expression language, its error types and a few
pieces of the compiler around it, written in Verus.

- `src/grammar.rs` states the grammar as spec functions over the parser's state
  (`PState`): each returns what the parser gives for a token stream, a value and
  the state after it, or an error and the state in which parsing stopped.
- `src/parser_impl.rs` and `src/parser_rec.rs` hold the executable parser; every
  `parse_*` function is proved to return exactly what the grammar says, to leave
  the parser in exactly the state the grammar says, to never move backwards, to
  read nothing when it returns `Ok(None)`, and to leave the recursion depth as it
  found it when it succeeds.
- `src/helper.rs` parses string literals, numbers and code points.
- `src/laws.rs` holds properties of the parser as a whole: sequences, alternatives,
  the items of a character set and the statements before an expression are taken
  in source order; `let` names in one scope differ, and the first repeated one is
  the error; ranges are well formed and ascending; repetitions have ordered
  bounds; character sets are never empty.
- `src/compiler_error.rs`, `src/compile.rs` and `src/range.rs` hold the compile
  errors, the compiler's state and the pretty printer of ranges.
- `app/` adds `std::error::Error` and `Display` to the compile error through
  `thiserror`.

## What is left out

Unicode properties inside character sets (scripts such as `Latin`, general
categories such as `L` or `Letter`, blocks such as `InBasic_Latin`) are not
supported. The names a character set accepts are `w`/`word`, `d`/`digit`,
`s`/`space`, `h`/`horiz_space`, `v`/`vert_space`, `cp`/`codepoint` and `.`; any
other name gives `CharClassError::UnknownNamedClass`.
