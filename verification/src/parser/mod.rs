pub mod ast;
pub mod ast_printer;
pub mod grammar;
pub mod laws;
pub mod parser;

pub use ast::{Expr, ExprView, Stmt, StmtView, Visitor};
pub use ast_printer::AstPrinter;
pub use parser::Parser;
