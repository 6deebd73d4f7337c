# lambda_lang

The front end and bytecode machine of a small programming language, with
its logic proved correct by Verus.

## Layout

- `src/` is the verified library.
  - `common/` holds spans of source text, a type table, decimals written as
    text, a fixed-bucket hash table, a table of labels, module paths and the
    `Outcome` / `TryError` / `Progress` result types.
  - `lang/` holds keywords, literals, binding powers and registered sources.
  - `ast/` is the front end of the language: tokens (`token.rs`), the
    grammar as spec functions over token sequences (`grammar.rs`), and the
    parsers proved equal to it: the Pratt parser of expressions with calls,
    indexes, members, generic calls, casts and lambdas, types and their
    modifiers, variable declarations and blocks (`parse.rs`), functions and
    extern functions (`items/function.rs`) and modify blocks
    (`items/modify.rs`).
  - `consteval/` evaluates constant array lengths.
  - `compiler/` and `context.rs` hold compile messages and the registry of
    sources.
  - `lambda_parser/` reads a line of the calculator language: the tokenizer,
    the Pratt parser of expressions, statements and the scoped variables.
  - `lambda_jit/` is the bytecode machine: values over `rust_decimal`, the
    bytecode builder with label resolution, the machine itself (with a
    mathematical model of every step) and the assembler of its text form.
  - `lambda/` compiles calculator expressions to bytecode (`compile_expr`,
    specified step by step in `compile.rs`), links named functions into one
    image and holds the native functions that only compute.
  - `codegen/` encodes machine instructions to bytes and assembles an
    executable image.
  - `build_args.rs` holds the compiler's arguments and reads the JSON text
    of a build file, with `serde_json` doing the parsing.
- `tests/` runs the library on concrete inputs.
- `app/` is the part around it: argument parsing, reading a build file from
  disk, the terminal, and the loop that runs the machine and performs native calls.

Each public operation states what it returns in its `ensures`; the laws
that relate several operations are the public `law_*` proof functions.
