# kyanite

The front and back end of a compiler for the Kyanite language, written in Verus: every
function of the library states what it does in `requires`/`ensures` over a mathematical
model, and Verus proves it.

## Layout

- `src/text.rs`: decimal rendering and reading of numbers, character helpers.
- `src/token.rs`: token kinds, spans and tokens as the lexer hands them over.
- `src/ast.rs`: the syntax tree and its views; semantic types.
- `src/error.rs`: source-pointing diagnostics (painted with the `colored` crate).
- `src/grammar.rs`: the grammar as spec functions over a parser state.
- `src/parse.rs`: the recursive-descent parser, proved equal to the grammar.
- `src/symbol.rs`: the symbol table of a program's declarations.
- `src/translate.rs`: the tree intermediate representation and the translation into it;
  the laws that no move goes from memory straight to memory and that control-flow labels
  are fresh.
- `src/registers.rs`: registers assigned to temporaries.
- `src/isa.rs`: a model of AArch64 instructions.
- `src/codegen.rs`: instruction selection for x86-64 and the assembly text.
- `tests/`: tests on concrete values, one for each law among them.
- `app/`: the command line, logging, and reading source files.

## What the original sources leave out

The sources this library follows lack several modules, and what depends on them is not
here: the lexer (so `app/` reads a source file but cannot tokenize it), canonicalization of
the intermediate representation (basic blocks, traces, hoisting statement-expressions),
register allocation, and the target frame and opcode modules. Instruction selection
therefore takes the register assignment as an input, refuses statement-expressions (which
canonicalization would have removed), and uses the x86-64 System V convention for frames
and calls.
