# mit_sprog

A small Danish teaching language, with a verified lexer, parser, interpreter and
C code generator.

- `src/` is the library, checked by Verus.
  - `lexer.rs`: source text to tokens; `parser.rs`: tokens to statements
    (including `funktion f(n som nummer) giver nummer ... slut`, `returner`,
    calls and parentheses); `program.rs`: both steps together; `besked.rs`:
    the messages of syntax errors.
  - `evaluator.rs`: the interpreter, which writes `[trace]` lines as it runs.
    It computes with numbers only through questions (`Forespoergsel`) that its
    caller answers (`Svar`), so that the floating point stays outside the
    library; a run that lacks an answer stops and says which it needs.
  - `kodegenerator.rs`: the statements as a C program that writes what the
    interpreter writes, without the `[trace]` lines.
  - `tabel.rs`, `tekst.rs`: name tables kept in name order, and text helpers.
  - `egenskaber.rs`, `genkoersel.rs`, `lexer_love.rs`: properties proved of every
    program and every source text.
- `app/` is the command line: `mit-sprog <fil.ms> [--kompiler [--behold-c]]`.
  It reads the file, answers the interpreter's questions with `f64`, runs it
  again with each new answer and prints the lines it has not printed yet, or
  writes the C program and calls `gcc`.
- `tests/` runs the library on concrete programs.
