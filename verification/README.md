# vcompiler

The front end and the expression code generator of a compiler for the
`.vmm` language, whose target is NASM assembly for x86-64: the tokenizer,
the parser, type checks of the semantic analysis, the layout of structs and
enums, and the NASM text for expressions, assignment targets and call
arguments. The library in `src/` is verified with Verus; `app/` is the
command-line driver (reading files, resolving imports, parsing). Statement
and whole-program generation, and evaluation of calls and enum values, are
not part of the library.

Modules of the library:

- `text`, `tokenizer` — characters, decimal text, and the tokenizer.
- `ir` — types, expressions, statements and their mathematical values;
  `ir_copy` — verified deep copies of expressions and statements.
- `grammar`, `parser` — the grammar as spec functions and the
  recursive-descent parser proved against it.
- `shared` — type names, generic substitution, type compatibility.
- `messages` — the text of semantic errors.
- `analyzer` — scopes, variable lookup and the typing of binary operators.
- `codegen` — the code generator's state, type sizes and alignment,
  arithmetic and comparison code, variable loads, call arguments, match arms.
- `sizing` — enum and struct layouts and instances of generic structs and
  enums, with the laws that sizes do not change as layouts are added.
- `registry` — registering a program's declarations and laying them out.
- `params` — receiving a function's parameters.
- `generics` — generic arguments of the code generator.
- `eval` — the types of expressions and their evaluation into `rax`
  (numbers, variables, unary and binary operators, dereference, indexing
  with a range check on arrays, casts, struct members, array and struct
  literals, strings, `sizeof`).
- `lvalue` — addresses of assignment targets (variables, `.` and `->`
  fields, dereferences, array elements) and assignments.
- `args` — evaluating and passing the arguments of a call.
- `imports` — the set of files already imported.

The tests in `tests/` run the library on concrete programs.
