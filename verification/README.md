# mus

A compiler for the Mus programming language, with its front end and code
generation verified in Verus.

- `src/frontend/lexer`: turns source text into tokens (automatic semicolons,
  literals, comments, escapes), with a spec function that states the token
  stream exactly.
- `src/frontend/parser`: a Pratt parser for expressions, statements, functions,
  externs and imports.
- `src/frontend/sema`: name resolution with nested scopes, the module system
  (imports of whole modules and single items, visibility, cycles), the
  analysis that types each expression, and the type checker.
- `src/backend/llvm`: lowers the typed program to a list of LLVM building steps
  (functions, blocks, values, branches, phi nodes).
- `src/cli`: the command line choices and the driver that runs the stages.
- `app/`: the executable. It reads `main.mus` and the module files that the
  analysis asks for, prints diagnostics with ariadne, replays the building
  steps with inkwell, and runs the result with the JIT or links an executable.
