# laertes

A compiler for the Shakespeare Programming Language, written in Verus.

A play (its cast, acts, scenes, stage directions and lines) comes in as a
sequence of tokens, each carrying its text and that text lower-cased
(`Token::new` lower-cases it) and is compiled into a structured program: the
characters it declares, and its scenes in order, each a list of statements
(assignments, input and output, comparisons, conditional jumps, stack
operations) over expressions built from noun phrases.

A jump may name its target by number or by title. Titles are looked up
among all the acts and scenes of the play, earlier or later ones alike: the
acts are read once to learn their titles, then again to compile them.

Layout:

- `src/` — the verified library. `token`, `text` and `lexicon` hold the
  tokens, word handling and word lists; `roman` reads roman numerals;
  `expression` reads noun phrases and expressions; `state` and `statement`
  read the lines of a scene; `play` reads a whole play and `outline` its
  bare outline; `program` is what a play compiles to; `laws` states and
  proves what holds of every accepted play.
- `app/` — the macro around the library: it turns the macro's tokens into
  the library's, renders a compiled program as Rust code, and holds the
  word lists.
- `tests/` — tests of the library on concrete plays and words.
