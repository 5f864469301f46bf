//! The trusted logical core of a dependently typed proof assistant: the
//! Calculus of Inductive Constructions with cumulative universes,
//! definitional equality (β, δ, ι, η), inductive families, universe
//! polymorphism, quotient types and proof erasure.
//!
//! Any term the kernel accepts is valid by construction, so every part of
//! it is specified and proved:
//!
//! | Module          | Responsibility                                              |
//! |-----------------|-------------------------------------------------------------|
//! | [`level`]       | Universe level algebra, normalization, `≤`.                 |
//! | [`name`]        | Interned identifiers.                                       |
//! | [`expr`]        | Core syntax: `Sort`, `Var`, `Const`, `App`, `Lam`, `Pi`, `Let`. |
//! | [`arena`]       | Hash-consed term storage with structural identity.         |
//! | [`error`]       | Kernel errors.                                              |
//! | [`nbe`]         | Normalization by evaluation: values, readback, conversion.  |
//! | [`mod@env`]     | Global declarations, inductive families, the local context. |
//! | [`infer`]       | Bidirectional type checking.                                |
//! | [`inductive`]   | Strict and nested positivity.                               |
//! | [`termination`] | Size-change termination.                                    |
//! | [`prelude`]     | `Nat`, `Bool`, `List`, `Option`, `Eq`.                      |
//! | [`quotient`]    | Predicative quotients.                                      |
//! | [`erasure`]     | Proof erasure.                                              |
//! | [`syntax`]      | Tokens, spans and syntax errors of source text.             |
//! | [`lexer`]       | Source text to tokens, with the layout of blocks.           |
//! | [`ast`]         | The syntax tree of source files.                            |
//! | [`parser`]      | Tokens to syntax tree, by recursive descent.                |
//! | [`text`]        | Decimal rendering for diagnostics.                          |
//! | [`terms`]       | Builders for the built-in declarations' terms.             |

pub mod text;
pub mod name;
pub mod level;
pub mod expr;
pub mod termination;
pub mod arena;
pub mod error;
pub mod nbe;
pub mod env;
pub mod inductive;
pub mod infer;
pub mod terms;
pub mod quotient;
pub mod prelude;
pub mod erasure;
pub mod syntax;
pub mod lexer;
pub mod ast;
pub mod parser;

pub use arena::{ExprArena, ExprData, ExprId, InternError};
pub use env::{
    ConstantInfo, ConstantVal, ConstructorVal, DefinitionVal, EnvError, GlobalEnv, InductiveVal, LocalContext,
    LocalDecl, OpaqueVal, QuotientKind, QuotientVal, RecursorRule, RecursorVal, TerminationObligation, TheoremVal,
};
pub use erasure::{Eraser, ErasureEnv, ErasureSort, GhostSet, LValue, PropOnlyErasureEnv, erase_closed};
pub use error::{KernelError, KernelResult};
pub use expr::{BinderInfo, DeBruijnIndex, Expr, Literal};
pub use inductive::PositivityChecker;
pub use infer::{TypeChecker, TypedContext};
pub use level::{Constraint, ConstraintSet, Level, UniverseParamId};
pub use name::{NameId, NameTable};
pub use nbe::{
    ConstDecl, ConstEnv, DbLevel, Head, Nbe, QuotientLiftInfo, RecursorInfo, RecursorRuleInfo, Transparency,
    TransparencyMode, ValRef, Value,
};
pub use prelude::{NatPrelude, Prelude, build_nat_prelude, build_prelude};
pub use quotient::{QuotientPrelude, register_quotient};
pub use termination::{
    CallEdge, CallGraph, Entry, SizeChangeMatrix, TerminationCertificate, TerminationChecker, TerminationError,
};
