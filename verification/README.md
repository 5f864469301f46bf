# lib — a verified kernel for a dependently typed proof assistant

This crate is the logical core of a proof assistant for the Calculus of
Inductive Constructions, written in Verus: every function in `src/`
carries a `requires`/`ensures` contract and is proved by Verus, and the
library states its laws as public proof functions.

## Layout

- `src/` — the verified library.
  - `level`, `name`, `expr`, `arena`: universe levels, interned names,
    terms and their hash-consed storage.
  - `nbe`: normalization by evaluation, readback and definitional
    equality (β, δ, ι, η), each specified by a spec function.
  - `env`, `inductive`, `termination`: the global environment, strict
    positivity of inductive families and size-change termination of
    recursive definitions.
  - `infer`: bidirectional type checking, proved to compute
    `infer_spec` / `check_spec` exactly.
  - `prelude`, `quotient`: the built-in `Nat`, `Bool`, `List`, `Option`,
    `Eq` and the quotient primitives, with every declaration stated.
  - `erasure`: proof erasure to an untyped λ-calculus.
  - `syntax`, `lexer`, `ast`, `parser`: the surface language, from bytes
    to a syntax tree.
- `tests/` — executable tests against the compiled library.
- `app/` — the parts that need process-wide state (fresh universe
  parameters), outside the verified library.

## Checking

The library is verified with Verus and has no dependencies beyond `vstd`.
