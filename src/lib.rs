pub mod syntax;
pub mod env;
pub mod scanner;
pub mod parser;
pub mod evaluator;
pub mod laws;

pub use syntax::{BinOp, Declaration, Expr, Statement, Syntax, Token};
pub use env::{Bindings, Env, FunctionTable};
pub use scanner::{scanner, ScanError};
pub use evaluator::{eval, EvalError, MAX_CALL_DEPTH};
pub use parser::{parser, Expected, ParseError};
