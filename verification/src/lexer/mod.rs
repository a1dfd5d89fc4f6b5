pub mod boundary;
pub mod grammar;
pub mod laws;
pub mod scanner;
pub mod token;

pub use scanner::Scanner;
pub use token::{Token, TokenType, TokenTypeView, TokenView};
