use crate::interpreter::interpreter::{
    after_operand, after_operands, binary_outcome, completes, discarded, evaluates, executes,
    extended, interprets, printed, single_valued, type_error, unary_outcome, Calculation, Effect,
    Outcome,
};
use crate::interpreter::number::is_nan;
use crate::interpreter::value::{truthy, values_equal, RuntimeErrorView, ValueView};
use crate::lexer::TokenView;
use crate::parser::ast::{ExprView, StmtView};
use crate::parser::laws::operators_fit;
use vstd::prelude::*;

verus! {

/// Equality tells types apart: values of different variants are never equal.
pub proof fn lemma_equality_discriminates(left: ValueView, right: ValueView)
    requires
        values_equal(left, right),
    ensures
        left is Number <==> right is Number,
        left is String <==> right is String,
        left is Boolean <==> right is Boolean,
        left is Nil <==> right is Nil,
{
}

/// Equality is reflexive on every value but a number that is not a number
/// (the value of `0 / 0`, say), which equals nothing.
pub proof fn lemma_equality_reflexive(value: ValueView)
    requires
        !(value matches ValueView::Number(bits) && is_nan(bits)),
    ensures
        values_equal(value, value),
{
}

/// Equality is symmetric.
pub proof fn lemma_equality_symmetric(left: ValueView, right: ValueView)
    ensures
        values_equal(left, right) == values_equal(right, left),
{
}

/// `==` and `!=` never fail, whatever their operands are, and need no
/// calculator.
pub proof fn lemma_equality_never_fails<F: Fn(Calculation) -> u32>(
    calculator: F,
    operator: TokenView,
    left: ValueView,
    right: ValueView,
    out: Outcome,
)
    requires
        operator.kind is EqualEqual || operator.kind is BangEqual,
        binary_outcome(calculator, operator, left, right, out),
    ensures
        out == Ok::<ValueView, RuntimeErrorView>(
            ValueView::Boolean(values_equal(left, right) == (operator.kind is EqualEqual)),
        ),
{
}

/// `!` never fails: it gives `true` for `nil` and `false`, and `false` for
/// everything else.
pub proof fn lemma_not_never_fails(operator: TokenView, operand: ValueView)
    requires
        operator.kind is Bang,
    ensures
        unary_outcome(operator, operand) == Ok::<ValueView, RuntimeErrorView>(
            ValueView::Boolean(operand is Nil || operand == ValueView::Boolean(false)),
        ),
        truthy(operand) <==> !(operand is Nil || operand == ValueView::Boolean(false)),
{
}

// The interpreter keeps no state between evaluations: what a run prints and
// how it ends depends on the statements and on the calculator's answers, and
// on nothing else. The lemmas below say so for a calculator that gives one
// answer to each piece of work.
/// An expression has one result.
pub proof fn lemma_evaluates_once<F: Fn(Calculation) -> u32>(
    calculator: F,
    expr: ExprView,
    one: Outcome,
    other: Outcome,
)
    requires
        single_valued(calculator),
        evaluates(calculator, expr, one),
        evaluates(calculator, expr, other),
    ensures
        one == other,
    decreases expr,
{
    match expr {
        ExprView::Literal(literal) => {},
        ExprView::Grouping(inner) => {
            lemma_evaluates_once(calculator, *inner, one, other);
        },
        ExprView::Unary { operator, right } => {
            let a = choose|operand: Outcome|
                evaluates(calculator, *right, operand) && one == #[trigger] after_operand(
                    operator,
                    operand,
                );
            let b = choose|operand: Outcome|
                evaluates(calculator, *right, operand) && other == #[trigger] after_operand(
                    operator,
                    operand,
                );
            lemma_evaluates_once(calculator, *right, a, b);
        },
        ExprView::Binary { left, operator, right } => {
            let (a1, a2) = choose|first: Outcome, second: Outcome|
                evaluates(calculator, *left, first) && (first is Ok ==> evaluates(
                    calculator,
                    *right,
                    second,
                )) && #[trigger] after_operands(calculator, operator, first, second, one);
            let (b1, b2) = choose|first: Outcome, second: Outcome|
                evaluates(calculator, *left, first) && (first is Ok ==> evaluates(
                    calculator,
                    *right,
                    second,
                )) && #[trigger] after_operands(calculator, operator, first, second, other);
            lemma_evaluates_once(calculator, *left, a1, b1);
            if a1 is Ok {
                lemma_evaluates_once(calculator, *right, a2, b2);
            }
        },
    }
}

/// A statement has one effect.
pub proof fn lemma_executes_once<F: Fn(Calculation) -> u32>(
    calculator: F,
    statement: StmtView,
    one: Effect,
    other: Effect,
)
    requires
        single_valued(calculator),
        executes(calculator, statement, one),
        executes(calculator, statement, other),
    ensures
        one == other,
{
    match statement {
        StmtView::Expression(expr) => {
            let a = choose|result: Outcome|
                evaluates(calculator, expr, result) && one == #[trigger] discarded(result);
            let b = choose|result: Outcome|
                evaluates(calculator, expr, result) && other == #[trigger] discarded(result);
            lemma_evaluates_once(calculator, expr, a, b);
        },
        StmtView::Print(expr) => {
            let a = choose|result: Outcome|
                evaluates(calculator, expr, result) && one == #[trigger] printed(result);
            let b = choose|result: Outcome|
                evaluates(calculator, expr, result) && other == #[trigger] printed(result);
            lemma_evaluates_once(calculator, expr, a, b);
        },
    }
}

/// Statements that all succeed print one output.
pub proof fn lemma_completes_once<F: Fn(Calculation) -> u32>(
    calculator: F,
    statements: Seq<StmtView>,
    one: Seq<ValueView>,
    other: Seq<ValueView>,
)
    requires
        single_valued(calculator),
        completes(calculator, statements, one),
        completes(calculator, statements, other),
    ensures
        one == other,
    decreases statements.len(),
{
    if statements.len() > 0 {
        let (a, x) = choose|before: Seq<ValueView>, last: Effect|
            completes(calculator, statements.drop_last(), before) && executes(
                calculator,
                statements.last(),
                last,
            ) && #[trigger] extended(before, last, one);
        let (b, y) = choose|before: Seq<ValueView>, last: Effect|
            completes(calculator, statements.drop_last(), before) && executes(
                calculator,
                statements.last(),
                last,
            ) && #[trigger] extended(before, last, other);
        lemma_completes_once(calculator, statements.drop_last(), a, b);
        lemma_executes_once(calculator, statements.last(), x, y);
    }
}

/// Where statements all succeed, each of them has an effect that is no
/// failure.
pub proof fn lemma_completes_each<F: Fn(Calculation) -> u32>(
    calculator: F,
    statements: Seq<StmtView>,
    output: Seq<ValueView>,
    k: int,
) -> (effect: Effect)
    requires
        completes(calculator, statements, output),
        0 <= k < statements.len(),
    ensures
        effect is Ok,
        executes(calculator, statements[k], effect),
    decreases statements.len(),
{
    let (before, last) = choose|before: Seq<ValueView>, last: Effect|
        completes(calculator, statements.drop_last(), before) && executes(
            calculator,
            statements.last(),
            last,
        ) && #[trigger] extended(before, last, output);
    if k == statements.len() - 1 {
        last
    } else {
        lemma_completes_each(calculator, statements.drop_last(), before, k)
    }
}

/// Two runs over the same statements print the same values and end alike:
/// nothing is carried over from one run to the next.
pub proof fn lemma_interprets_once<F: Fn(Calculation) -> u32>(
    calculator: F,
    statements: Seq<StmtView>,
    output: Seq<ValueView>,
    failure: Option<RuntimeErrorView>,
    output_again: Seq<ValueView>,
    failure_again: Option<RuntimeErrorView>,
)
    requires
        single_valued(calculator),
        interprets(calculator, statements, output, failure),
        interprets(calculator, statements, output_again, failure_again),
    ensures
        output == output_again,
        failure == failure_again,
{
    match (failure, failure_again) {
        (None, None) => {
            lemma_completes_once(calculator, statements, output, output_again);
        },
        (Some(error), None) => {
            let k = choose|k: int|
                0 <= k < statements.len() && completes(calculator, statements.take(k), output)
                    && #[trigger] executes(
                    calculator,
                    statements[k],
                    Err::<Option<ValueView>, RuntimeErrorView>(error),
                );
            let effect = lemma_completes_each(calculator, statements, output_again, k);
            lemma_executes_once(calculator, statements[k], effect, Err(error));
        },
        (None, Some(error)) => {
            let k = choose|k: int|
                0 <= k < statements.len() && completes(
                    calculator,
                    statements.take(k),
                    output_again,
                ) && #[trigger] executes(
                    calculator,
                    statements[k],
                    Err::<Option<ValueView>, RuntimeErrorView>(error),
                );
            let effect = lemma_completes_each(calculator, statements, output, k);
            lemma_executes_once(calculator, statements[k], effect, Err(error));
        },
        (Some(error), Some(error_again)) => {
            let k = choose|k: int|
                0 <= k < statements.len() && completes(calculator, statements.take(k), output)
                    && #[trigger] executes(
                    calculator,
                    statements[k],
                    Err::<Option<ValueView>, RuntimeErrorView>(error),
                );
            let j = choose|j: int|
                0 <= j < statements.len() && completes(
                    calculator,
                    statements.take(j),
                    output_again,
                ) && #[trigger] executes(
                    calculator,
                    statements[j],
                    Err::<Option<ValueView>, RuntimeErrorView>(error_again),
                );
            if k < j {
                let effect = lemma_completes_each(
                    calculator,
                    statements.take(j),
                    output_again,
                    k,
                );
                lemma_executes_once(calculator, statements[k], effect, Err(error));
            } else if j < k {
                let effect = lemma_completes_each(calculator, statements.take(k), output, j);
                lemma_executes_once(calculator, statements[j], effect, Err(error_again));
            } else {
                lemma_completes_once(calculator, statements.take(k), output, output_again);
                lemma_executes_once(
                    calculator,
                    statements[k],
                    Err(error),
                    Err(error_again),
                );
            }
        },
    }
}

/// The messages of the errors that the types of operands can give rise to.
pub open spec fn is_type_complaint(message: Seq<char>) -> bool {
    ||| message == "Operand must be a number."@
    ||| message == "Operands must be two number or two strings."@
    ||| message == "Operands must be a number."@
}

/// Where every operation carries an operator of its own sort, as in every
/// tree that the parser builds, evaluation fails only over the types of
/// operands, never over an operator.
pub proof fn lemma_fitting_tree_fails_on_types<F: Fn(Calculation) -> u32>(
    calculator: F,
    expr: ExprView,
    operator: TokenView,
    message: Seq<char>,
)
    requires
        operators_fit(expr),
        evaluates(calculator, expr, type_error(operator, message)),
    ensures
        is_type_complaint(message),
    decreases expr,
{
    let out = type_error(operator, message);
    match expr {
        ExprView::Literal(literal) => {},
        ExprView::Grouping(inner) => {
            lemma_fitting_tree_fails_on_types(calculator, *inner, operator, message);
        },
        ExprView::Unary { operator: sign, right } => {
            let operand = choose|operand: Outcome|
                evaluates(calculator, *right, operand) && out == #[trigger] after_operand(
                    sign,
                    operand,
                );
            if operand is Err {
                lemma_fitting_tree_fails_on_types(calculator, *right, operator, message);
            }
        },
        ExprView::Binary { left, operator: sign, right } => {
            let (first, second) = choose|first: Outcome, second: Outcome|
                evaluates(calculator, *left, first) && (first is Ok ==> evaluates(
                    calculator,
                    *right,
                    second,
                )) && #[trigger] after_operands(calculator, sign, first, second, out);
            if first is Err {
                lemma_fitting_tree_fails_on_types(calculator, *left, operator, message);
            } else if second is Err {
                lemma_fitting_tree_fails_on_types(calculator, *right, operator, message);
            }
        },
    }
}

} // verus!
