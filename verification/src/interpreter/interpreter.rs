use crate::interpreter::number::{less, less_equal, negate, negated, number_le, number_lt};
use crate::interpreter::value::{
    truthy, values_equal, RuntimeError, RuntimeErrorView, Value, ValueView,
};
use crate::lexer::{Token, TokenType, TokenTypeView, TokenView};
use crate::parser::ast::{Expr, ExprView, Literal, LiteralView, Stmt, StmtView, Visitor};
use crate::utils::{runtime_diagnostic, runtime_error, views, Diagnostic, DiagnosticView};
use vstd::prelude::*;
use vstd::string::StringExecFns;

verus! {

/// A piece of floating-point work that the interpreter hands to its
/// calculator: to read the decimal spelling of a literal, or to combine two
/// numbers. Numbers go in and come back as their bits.
#[derive(Debug)]
pub enum Calculation {
    Read(String),
    Add(u32, u32),
    Subtract(u32, u32),
    Multiply(u32, u32),
    Divide(u32, u32),
}

/// What a `Calculation` stands for in contracts.
pub enum CalculationView {
    Read(Seq<char>),
    Add(u32, u32),
    Subtract(u32, u32),
    Multiply(u32, u32),
    Divide(u32, u32),
}

impl View for Calculation {
    type V = CalculationView;

    open spec fn view(&self) -> CalculationView {
        match self {
            Calculation::Read(spelling) => CalculationView::Read(spelling@),
            Calculation::Add(a, b) => CalculationView::Add(*a, *b),
            Calculation::Subtract(a, b) => CalculationView::Subtract(*a, *b),
            Calculation::Multiply(a, b) => CalculationView::Multiply(*a, *b),
            Calculation::Divide(a, b) => CalculationView::Divide(*a, *b),
        }
    }
}

/// The result of evaluating an expression, as contracts see it.
pub type Outcome = Result<ValueView, RuntimeErrorView>;

/// The result of executing a statement, as contracts see it: the value to
/// print, if the statement prints one.
pub type Effect = Result<Option<ValueView>, RuntimeErrorView>;

/// The result of an evaluation, as contracts see it.
pub open spec fn outcome(result: Result<Value, RuntimeError>) -> Outcome {
    match result {
        Ok(value) => Ok(value@),
        Err(error) => Err(error@),
    }
}

/// The result of an execution, as contracts see it.
pub open spec fn effect(result: Result<Option<Value>, RuntimeError>) -> Effect {
    match result {
        Ok(Some(value)) => Ok(Some(value@)),
        Ok(None) => Ok(None),
        Err(error) => Err(error@),
    }
}

/// The failure of the operation at `operator`, with `message`.
pub open spec fn type_error(operator: TokenView, message: Seq<char>) -> Outcome {
    Err(RuntimeErrorView::TypeError(operator, message))
}

/// What a prefix operator makes of its operand. `-` wants a number and gives
/// its negation; `!` takes anything and gives the opposite of its truth.
pub open spec fn unary_outcome(operator: TokenView, operand: ValueView) -> Outcome {
    match operator.kind {
        TokenTypeView::Minus => match operand {
            ValueView::Number(bits) => Ok(ValueView::Number(negated(bits))),
            _ => type_error(operator, "Operand must be a number."@),
        },
        TokenTypeView::Bang => Ok(ValueView::Boolean(!truthy(operand))),
        _ => type_error(operator, "Operator is not unary."@),
    }
}

/// What a prefix operator makes of the result of its operand: the operand's
/// failure, or what the operator makes of its value.
pub open spec fn after_operand(operator: TokenView, operand: Outcome) -> Outcome {
    match operand {
        Ok(value) => unary_outcome(operator, value),
        Err(error) => Err(error),
    }
}

/// The effect of an expression statement whose expression gave `result`.
pub open spec fn discarded(result: Outcome) -> Effect {
    match result {
        Ok(_) => Ok(None),
        Err(error) => Err(error),
    }
}

/// The effect of a print statement whose expression gave `result`.
pub open spec fn printed(result: Outcome) -> Effect {
    match result {
        Ok(value) => Ok(Some(value)),
        Err(error) => Err(error),
    }
}

/// The output after one more statement with effect `last`, where the
/// statements before it printed `before`. A failure leaves no output behind it.
pub open spec fn extended(before: Seq<ValueView>, last: Effect, output: Seq<ValueView>) -> bool {
    match last {
        Ok(Some(value)) => output == before.push(value),
        Ok(None) => output == before,
        Err(_) => false,
    }
}

/// The diagnostics of a run that ended with `failure`.
pub open spec fn reported(failure: Option<RuntimeErrorView>) -> Seq<DiagnosticView> {
    match failure {
        Some(RuntimeErrorView::TypeError(token, message)) => seq![
            runtime_diagnostic(token, message),
        ],
        None => Seq::empty(),
    }
}

/// The kinds that compute a number from two numbers.
pub open spec fn is_arithmetic(kind: TokenTypeView) -> bool {
    kind is Minus || kind is Slash || kind is Star || kind is Plus
}

/// The kinds that order two numbers.
pub open spec fn is_ordering(kind: TokenTypeView) -> bool {
    kind is Greater || kind is GreaterEqual || kind is Less || kind is LessEqual
}

/// The work that an arithmetic operator asks of the calculator.
pub open spec fn calculation_of(kind: TokenTypeView, left: u32, right: u32) -> CalculationView {
    match kind {
        TokenTypeView::Minus => CalculationView::Subtract(left, right),
        TokenTypeView::Slash => CalculationView::Divide(left, right),
        TokenTypeView::Star => CalculationView::Multiply(left, right),
        _ => CalculationView::Add(left, right),
    }
}

/// What an ordering operator says of two numbers.
pub open spec fn ordering_of(kind: TokenTypeView, left: u32, right: u32) -> bool {
    match kind {
        TokenTypeView::Greater => number_lt(right, left),
        TokenTypeView::GreaterEqual => number_le(right, left),
        TokenTypeView::Less => number_lt(left, right),
        _ => number_le(left, right),
    }
}

/// True if the calculator may give `bits` for `work`.
pub open spec fn answers<F: Fn(Calculation) -> u32>(
    calculator: F,
    work: CalculationView,
    bits: u32,
) -> bool {
    exists|asked: Calculation| #[trigger]
        call_ensures(calculator, (asked,), bits) && asked@ == work
}

/// True if the calculator gives one answer to each piece of work, however it
/// is asked.
pub open spec fn single_valued<F: Fn(Calculation) -> u32>(calculator: F) -> bool {
    forall|work: CalculationView, one: u32, other: u32|
        answers(calculator, work, one) && answers(calculator, work, other) ==> one == other
}

/// True if `out` may be the value of `literal`: text and the three constants
/// stand for themselves, a number is what the calculator reads from its
/// spelling.
pub open spec fn literal_outcome<F: Fn(Calculation) -> u32>(
    calculator: F,
    literal: LiteralView,
    out: Outcome,
) -> bool {
    match literal {
        LiteralView::Number(spelling) => out matches Ok(ValueView::Number(bits)) && answers(
            calculator,
            CalculationView::Read(spelling),
            bits,
        ),
        LiteralView::String(contents) => out == Ok::<ValueView, RuntimeErrorView>(
            ValueView::String(contents),
        ),
        LiteralView::True => out == Ok::<ValueView, RuntimeErrorView>(ValueView::Boolean(true)),
        LiteralView::False => out == Ok::<ValueView, RuntimeErrorView>(ValueView::Boolean(false)),
        LiteralView::Nil => out == Ok::<ValueView, RuntimeErrorView>(ValueView::Nil),
    }
}

/// True if `out` may be what an infix operator makes of two values. `==` and
/// `!=` take any two values and never fail. `+` adds two numbers or joins two
/// strings. The other arithmetic operators and the ordering operators want
/// two numbers. A token that is no infix operator fails.
pub open spec fn binary_outcome<F: Fn(Calculation) -> u32>(
    calculator: F,
    operator: TokenView,
    left: ValueView,
    right: ValueView,
    out: Outcome,
) -> bool {
    let kind = operator.kind;
    if kind is EqualEqual {
        out == Ok::<ValueView, RuntimeErrorView>(ValueView::Boolean(values_equal(left, right)))
    } else if kind is BangEqual {
        out == Ok::<ValueView, RuntimeErrorView>(ValueView::Boolean(!values_equal(left, right)))
    } else {
        match (left, right) {
            (ValueView::Number(a), ValueView::Number(b)) => {
                if is_arithmetic(kind) {
                    out matches Ok(ValueView::Number(bits)) && answers(
                        calculator,
                        calculation_of(kind, a, b),
                        bits,
                    )
                } else if is_ordering(kind) {
                    out == Ok::<ValueView, RuntimeErrorView>(
                        ValueView::Boolean(ordering_of(kind, a, b)),
                    )
                } else {
                    out == type_error(operator, "Operator cannot be applied on two numbers"@)
                }
            },
            (ValueView::String(a), ValueView::String(b)) if kind is Plus => {
                out == Ok::<ValueView, RuntimeErrorView>(ValueView::String(a + b))
            },
            _ => {
                if kind is Plus {
                    out == type_error(operator, "Operands must be two number or two strings."@)
                } else {
                    out == type_error(operator, "Operands must be a number."@)
                }
            },
        }
    }
}

/// What an infix operator makes of the results of its operands: the failure
/// of the left one, else the failure of the right one, else what the operator
/// makes of the two values.
pub open spec fn after_operands<F: Fn(Calculation) -> u32>(
    calculator: F,
    operator: TokenView,
    first: Outcome,
    second: Outcome,
    out: Outcome,
) -> bool {
    match first {
        Ok(a) => match second {
            Ok(b) => binary_outcome(calculator, operator, a, b, out),
            Err(error) => out == Err::<ValueView, RuntimeErrorView>(error),
        },
        Err(error) => out == Err::<ValueView, RuntimeErrorView>(error),
    }
}

/// True if `out` may be the result of evaluating `expr`. Operands are
/// evaluated left before right; the right one only if the left one gave a
/// value.
pub open spec fn evaluates<F: Fn(Calculation) -> u32>(
    calculator: F,
    expr: ExprView,
    out: Outcome,
) -> bool
    decreases expr,
{
    match expr {
        ExprView::Literal(literal) => literal_outcome(calculator, literal, out),
        ExprView::Grouping(inner) => evaluates(calculator, *inner, out),
        ExprView::Unary { operator, right } => exists|operand: Outcome|
            evaluates(calculator, *right, operand) && out == #[trigger] after_operand(
                operator,
                operand,
            ),
        ExprView::Binary { left, operator, right } => exists|first: Outcome, second: Outcome|
            evaluates(calculator, *left, first) && (first is Ok ==> evaluates(
                calculator,
                *right,
                second,
            )) && #[trigger] after_operands(calculator, operator, first, second, out),
    }
}

/// True if `out` may be the result of executing `statement`: the value of its
/// expression for a print statement, nothing for an expression statement, or
/// the failure of the expression.
pub open spec fn executes<F: Fn(Calculation) -> u32>(
    calculator: F,
    statement: StmtView,
    out: Effect,
) -> bool {
    match statement {
        StmtView::Expression(expr) => exists|result: Outcome|
            evaluates(calculator, expr, result) && out == #[trigger] discarded(result),
        StmtView::Print(expr) => exists|result: Outcome|
            evaluates(calculator, expr, result) && out == #[trigger] printed(result),
    }
}

/// True if `statements`, executed in order, may all succeed and print
/// `output`.
pub open spec fn completes<F: Fn(Calculation) -> u32>(
    calculator: F,
    statements: Seq<StmtView>,
    output: Seq<ValueView>,
) -> bool
    decreases statements.len(),
{
    if statements.len() == 0 {
        output == Seq::<ValueView>::empty()
    } else {
        exists|before: Seq<ValueView>, last: Effect|
            completes(calculator, statements.drop_last(), before) && executes(
                calculator,
                statements.last(),
                last,
            ) && #[trigger] extended(before, last, output)
    }
}

/// True if a run over `statements` may print `output` and end with `failure`:
/// either every statement succeeds, or the statements before some statement
/// succeed, that statement fails, and nothing after it is executed.
pub open spec fn interprets<F: Fn(Calculation) -> u32>(
    calculator: F,
    statements: Seq<StmtView>,
    output: Seq<ValueView>,
    failure: Option<RuntimeErrorView>,
) -> bool {
    match failure {
        None => completes(calculator, statements, output),
        Some(error) => exists|k: int|
            0 <= k < statements.len() && completes(calculator, statements.take(k), output)
                && #[trigger] executes(
                calculator,
                statements[k],
                Err::<Option<ValueView>, RuntimeErrorView>(error),
            ),
    }
}

/// Evaluates expressions and executes statements by walking the tree. The
/// floating-point work is done by the calculator that the interpreter was made
/// with.
pub struct Interpreter<F: Fn(Calculation) -> u32> {
    calculator: F,
}

impl<F: Fn(Calculation) -> u32> Interpreter<F> {
    #[verifier::type_invariant]
    spec fn calculator_is_total(self) -> bool {
        forall|work: Calculation| call_requires(self.calculator, (work,))
    }

    /// The calculator that this interpreter was made with.
    pub closed spec fn calculator(&self) -> F {
        self.calculator
    }

    /// Makes an interpreter around a calculator that accepts every piece of
    /// work.
    pub fn new(calculator: F) -> (interpreter: Self)
        requires
            forall|work: Calculation| call_requires(calculator, (work,)),
        ensures
            interpreter.calculator() == calculator,
    {
        Interpreter { calculator }
    }

    /// Hands one piece of work to the calculator.
    fn calculate(&self, work: Calculation) -> (bits: u32)
        ensures
            answers(self.calculator(), work@, bits),
    {
        proof {
            use_type_invariant(self);
        }
        let ghost asked = work;
        let bits = (self.calculator)(work);
        assert(call_ensures(self.calculator(), (asked,), bits));
        bits
    }

    /// The failure of the operation at `token`, with `msg`.
    fn error(token: Token, msg: String) -> (result: Result<Value, RuntimeError>)
        ensures
            outcome(result) == type_error(token@, msg@),
    {
        Err(RuntimeError::TypeError(token, msg))
    }

    /// `l == r`, as the language has it.
    fn is_equal(l: &Value, r: &Value) -> (equal: bool)
        ensures
            equal == values_equal(l@, r@),
    {
        *l == *r
    }

    /// The value of a literal.
    pub fn literal(&self, literal: &Literal) -> (value: Value)
        ensures
            literal_outcome(self.calculator(), literal@, Ok(value@)),
    {
        match literal {
            Literal::Number(spelling) => Value::Number(
                self.calculate(Calculation::Read(spelling.clone())),
            ),
            Literal::String(string) => Value::String(string.clone()),
            Literal::True => Value::Boolean(true),
            Literal::False => Value::Boolean(false),
            Literal::Nil => Value::Nil,
        }
    }

    /// Applies a prefix operator to the value of its operand.
    pub fn unary(&self, operator: &Token, right: Value) -> (result: Result<Value, RuntimeError>)
        ensures
            outcome(result) == unary_outcome(operator@, right@),
    {
        match operator.get_token_type() {
            TokenType::Minus => match right {
                Value::Number(number) => Ok(Value::Number(negate(number))),
                _ => Self::error(operator.clone(), String::from_str("Operand must be a number.")),
            },
            TokenType::Bang => Ok(Value::Boolean(!right.is_truthy())),
            _ => Self::error(operator.clone(), String::from_str("Operator is not unary.")),
        }
    }

    /// Applies an infix operator to the values of its operands.
    pub fn binary(&self, operator: &Token, left: Value, right: Value) -> (result: Result<
        Value,
        RuntimeError,
    >)
        ensures
            binary_outcome(self.calculator(), operator@, left@, right@, outcome(result)),
    {
        match (&left, &right) {
            (Value::Number(l), Value::Number(r)) => {
                let l: u32 = *l;
                let r: u32 = *r;
                match operator.get_token_type() {
                    TokenType::Minus => Ok(
                        Value::Number(self.calculate(Calculation::Subtract(l, r))),
                    ),
                    TokenType::Slash => Ok(Value::Number(self.calculate(Calculation::Divide(l, r)))),
                    TokenType::Star => Ok(
                        Value::Number(self.calculate(Calculation::Multiply(l, r))),
                    ),
                    TokenType::Plus => Ok(Value::Number(self.calculate(Calculation::Add(l, r)))),
                    TokenType::Greater => Ok(Value::Boolean(less(r, l))),
                    TokenType::GreaterEqual => Ok(Value::Boolean(less_equal(r, l))),
                    TokenType::Less => Ok(Value::Boolean(less(l, r))),
                    TokenType::LessEqual => Ok(Value::Boolean(less_equal(l, r))),
                    TokenType::BangEqual => Ok(Value::Boolean(!Self::is_equal(&left, &right))),
                    TokenType::EqualEqual => Ok(Value::Boolean(Self::is_equal(&left, &right))),
                    _ => Self::error(
                        operator.clone(),
                        String::from_str("Operator cannot be applied on two numbers"),
                    ),
                }
            },
            (Value::String(l), Value::String(r)) => {
                match operator.get_token_type() {
                    TokenType::Plus => {
                        let mut concated_str: String = l.clone();
                        concated_str.append(r.as_str());
                        Ok(Value::String(concated_str))
                    },
                    TokenType::BangEqual => Ok(Value::Boolean(!Self::is_equal(&left, &right))),
                    TokenType::EqualEqual => Ok(Value::Boolean(Self::is_equal(&left, &right))),
                    _ => Self::error(
                        operator.clone(),
                        String::from_str("Operands must be a number."),
                    ),
                }
            },
            _ => match operator.get_token_type() {
                TokenType::BangEqual => Ok(Value::Boolean(!Self::is_equal(&left, &right))),
                TokenType::EqualEqual => Ok(Value::Boolean(Self::is_equal(&left, &right))),
                TokenType::Plus => Self::error(
                    operator.clone(),
                    String::from_str("Operands must be two number or two strings."),
                ),
                _ => Self::error(operator.clone(), String::from_str("Operands must be a number.")),
            },
        }
    }

    /// Evaluates an expression to a value, or to the first type error met.
    pub fn evaluate(&self, expr: &Expr) -> (result: Result<Value, RuntimeError>)
        ensures
            evaluates(self.calculator(), expr@, outcome(result)),
        decreases expr,
    {
        match expr {
            Expr::Literal(literal) => Ok(self.literal(literal)),
            Expr::Grouping(grouping) => self.evaluate(&grouping.expression),
            Expr::Unary(unary) => {
                let operand = self.evaluate(&unary.right);
                let result = match operand {
                    Ok(right) => self.unary(&unary.operator, right),
                    Err(error) => Err(error),
                };
                assert(outcome(result) == after_operand(unary.operator@, outcome(operand)));
                result
            },
            Expr::Binary(binary) => {
                let first = self.evaluate(&binary.left);
                match first {
                    Ok(left) => {
                        let second = self.evaluate(&binary.right);
                        let result = match second {
                            Ok(right) => self.binary(&binary.operator, left, right),
                            Err(error) => Err(error),
                        };
                        assert(after_operands(
                            self.calculator(),
                            binary.operator@,
                            outcome(first),
                            outcome(second),
                            outcome(result),
                        ));
                        result
                    },
                    Err(error) => {
                        let result = Err(error);
                        assert(after_operands(
                            self.calculator(),
                            binary.operator@,
                            outcome(first),
                            outcome(first),
                            outcome(result),
                        ));
                        result
                    },
                }
            },
        }
    }

    /// Executes the statements in order and returns the values printed. The
    /// first runtime error ends the run: it is recorded, the flag is raised,
    /// and the statements after it are not executed.
    pub fn interpret(
        &self,
        statements: Vec<Stmt>,
        had_runtime_err: &mut bool,
        diagnostics: &mut Vec<Diagnostic>,
    ) -> (output: Vec<Value>)
        ensures
            exists|failure: Option<RuntimeErrorView>| #[trigger]
                interprets(self.calculator(), views(statements@), views(output@), failure)
                    && *final(had_runtime_err) == (*old(had_runtime_err) || failure is Some)
                    && views(final(diagnostics)@) == views(old(diagnostics)@) + reported(failure),
    {
        let mut output: Vec<Value> = Vec::new();
        let mut i: usize = 0;
        proof {
            assert(views(statements@).take(0).len() == 0);
            assert(views(output@) =~= Seq::<ValueView>::empty());
        }
        while i < statements.len()
            invariant
                i <= statements.len(),
                completes(self.calculator(), views(statements@).take(i as int), views(output@)),
                *had_runtime_err == *old(had_runtime_err),
                *diagnostics == *old(diagnostics),
            decreases statements.len() - i,
        {
            let ghost done = views(statements@).take(i as int);
            let ghost next = views(statements@).take(i + 1);
            let ghost before = views(output@);
            let result = self.execute(&statements[i]);
            proof {
                assert(next.drop_last() =~= done);
                assert(next.last() == statements[i as int]@);
            }
            match result {
                Ok(Some(value)) => {
                    output.push(value);
                    proof {
                        assert(views(output@) =~= before.push(value@));
                        assert(extended(before, effect(result), views(output@)));
                    }
                },
                Ok(None) => {
                    proof {
                        assert(extended(before, effect(result), views(output@)));
                    }
                },
                Err(error) => {
                    match error {
                        RuntimeError::TypeError(token, msg) => {
                            runtime_error(&token, msg.as_str(), had_runtime_err, diagnostics);
                            proof {
                                let failure = Some(RuntimeErrorView::TypeError(token@, msg@));
                                assert(executes(
                                    self.calculator(),
                                    views(statements@)[i as int],
                                    Err::<Option<ValueView>, RuntimeErrorView>(error@),
                                ));
                                assert(interprets(
                                    self.calculator(),
                                    views(statements@),
                                    views(output@),
                                    failure,
                                ));
                                assert(views(diagnostics@) =~= views(old(diagnostics)@)
                                    + reported(failure));
                            }
                        },
                    }
                    return output;
                },
            }
            i += 1;
        }
        proof {
            assert(views(statements@).take(i as int) =~= views(statements@));
            assert(interprets(self.calculator(), views(statements@), views(output@), None));
            assert(views(diagnostics@) =~= views(old(diagnostics)@) + reported(None));
        }
        output
    }

    /// Executes one statement. A print statement hands back the value to
    /// print.
    pub fn execute(&self, statement: &Stmt) -> (result: Result<Option<Value>, RuntimeError>)
        ensures
            executes(self.calculator(), statement@, effect(result)),
    {
        statement.accept(self)
    }
}

impl<F: Fn(Calculation) -> u32> Visitor<Expr, Result<Value, RuntimeError>> for Interpreter<F> {
    open spec fn visits(&self, production: &Expr, result: Result<Value, RuntimeError>) -> bool {
        evaluates(self.calculator(), production@, outcome(result))
    }

    fn visit(&self, production: &Expr) -> (result: Result<Value, RuntimeError>) {
        self.evaluate(production)
    }
}

impl<F: Fn(Calculation) -> u32> Visitor<Stmt, Result<Option<Value>, RuntimeError>> for Interpreter<
    F,
> {
    open spec fn visits(
        &self,
        production: &Stmt,
        result: Result<Option<Value>, RuntimeError>,
    ) -> bool {
        executes(self.calculator(), production@, effect(result))
    }

    fn visit(&self, statement: &Stmt) -> (result: Result<Option<Value>, RuntimeError>) {
        match statement {
            Stmt::Expression(expression) => {
                let value = self.evaluate(&expression.expression);
                let result = match value {
                    Ok(_) => Ok(None),
                    Err(error) => Err(error),
                };
                assert(effect(result) == discarded(outcome(value)));
                result
            },
            Stmt::Print(print) => {
                let value = self.evaluate(&print.expression);
                let result = match value {
                    Ok(value) => Ok(Some(value)),
                    Err(error) => Err(error),
                };
                assert(effect(result) == printed(outcome(value)));
                result
            },
        }
    }
}

} // verus!
