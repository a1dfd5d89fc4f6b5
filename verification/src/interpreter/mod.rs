pub mod interpreter;
pub mod laws;
pub mod number;
pub mod value;

pub use interpreter::{Calculation, CalculationView, Interpreter};
pub use value::{RuntimeError, RuntimeErrorView, Value, ValueView};
