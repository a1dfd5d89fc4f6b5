use crate::parser::ast::{Expr, ExprView, Literal, LiteralView, Visitor};
use vstd::prelude::*;
use vstd::string::StringExecFns;

verus! {

/// Renders an expression as text, with every operation in parentheses:
/// `(* (- 123) (group 45.67))`.
pub struct AstPrinter;

/// `parts`, each behind a space.
pub open spec fn spaced(parts: Seq<Seq<char>>) -> Seq<char>
    decreases parts.len(),
{
    if parts.len() == 0 {
        Seq::empty()
    } else {
        spaced(parts.drop_last()) + " "@ + parts.last()
    }
}

/// A name and the renderings of its operands, in one pair of parentheses.
pub open spec fn parenthesized(name: Seq<char>, parts: Seq<Seq<char>>) -> Seq<char> {
    "("@ + name + spaced(parts) + ")"@
}

/// The rendering of an expression. A literal is rendered as it is spelled, a
/// grouping under the name `group`, an operation under its operator's text.
pub open spec fn rendering(expr: ExprView) -> Seq<char>
    decreases expr,
{
    match expr {
        ExprView::Literal(literal) => match literal {
            LiteralView::Nil => "nil"@,
            LiteralView::True => "true"@,
            LiteralView::False => "false"@,
            LiteralView::String(contents) => contents,
            LiteralView::Number(spelling) => spelling,
        },
        ExprView::Binary { left, operator, right } => parenthesized(
            operator.lexeme,
            seq![rendering(*left), rendering(*right)],
        ),
        ExprView::Grouping(inner) => parenthesized("group"@, seq![rendering(*inner)]),
        ExprView::Unary { operator, right } => parenthesized(
            operator.lexeme,
            seq![rendering(*right)],
        ),
    }
}

/// The renderings of several expressions.
pub open spec fn renderings(exprs: Seq<&Expr>) -> Seq<Seq<char>> {
    Seq::new(exprs.len(), |i: int| rendering(exprs[i]@))
}

/// The number of nodes of an expression.
pub open spec fn size(expr: ExprView) -> nat
    decreases expr,
{
    match expr {
        ExprView::Literal(_) => 1,
        ExprView::Grouping(inner) => 1 + size(*inner),
        ExprView::Unary { operator, right } => 1 + size(*right),
        ExprView::Binary { left, operator, right } => 1 + size(*left) + size(*right),
    }
}

/// The number of nodes of several expressions together.
pub open spec fn sizes(exprs: Seq<&Expr>) -> nat
    decreases exprs.len(),
{
    if exprs.len() == 0 {
        0
    } else {
        sizes(exprs.drop_last()) + size(exprs.last()@)
    }
}

proof fn lemma_sizes_bound(exprs: Seq<&Expr>, i: int)
    requires
        0 <= i < exprs.len(),
    ensures
        size(exprs[i]@) <= sizes(exprs),
    decreases exprs.len(),
{
    if i < exprs.len() - 1 {
        lemma_sizes_bound(exprs.drop_last(), i);
    }
}

/// The rendering of an operation starts with an opening parenthesis and ends
/// with a closing one.
pub proof fn lemma_rendering_parenthesized(expr: ExprView)
    requires
        !(expr is Literal),
    ensures
        rendering(expr).len() >= 2,
        rendering(expr).first() == '(',
        rendering(expr).last() == ')',
{
    reveal_strlit("(");
    reveal_strlit(")");
}

impl AstPrinter {
    pub fn print(&self, expr: &Expr) -> (text: String)
        ensures
            text@ == rendering(expr@),
    {
        expr.accept::<String>(self)
    }

    /// Renders `name` and the expressions in one pair of parentheses.
    pub fn parenthesize(&self, name: String, exprs: Vec<&Expr>) -> (text: String)
        ensures
            text@ == parenthesized(name@, renderings(exprs@)),
        decreases sizes(exprs@), 1nat,
    {
        let mut result: String = String::new();
        result.append("(");
        result.append(name.as_str());
        let ghost head = result@;
        let mut i: usize = 0;
        proof {
            assert(renderings(exprs@).take(0) =~= Seq::<Seq<char>>::empty());
            assert(head =~= "("@ + name@);
            assert(result@ =~= "("@ + name@ + spaced(renderings(exprs@).take(0)));
        }
        while i < exprs.len()
            invariant
                i <= exprs.len(),
                result@ == "("@ + name@ + spaced(renderings(exprs@).take(i as int)),
            decreases exprs.len() - i,
        {
            proof {
                lemma_sizes_bound(exprs@, i as int);
            }
            let part = self.render(exprs[i]);
            result.append(" ");
            result.append(part.as_str());
            proof {
                let done = renderings(exprs@).take(i as int);
                let next = renderings(exprs@).take(i + 1);
                assert(next.drop_last() =~= done);
                assert(next.last() == part@);
                assert(result@ =~= "("@ + name@ + spaced(next));
            }
            i += 1;
        }
        result.append(")");
        proof {
            assert(renderings(exprs@).take(i as int) =~= renderings(exprs@));
        }
        result
    }

    /// Renders one expression.
    pub fn render(&self, expr: &Expr) -> (text: String)
        ensures
            text@ == rendering(expr@),
        decreases size(expr@), 0nat,
    {
        match expr {
            Expr::Literal(literal) => match literal {
                Literal::Nil => String::from_str("nil"),
                Literal::True => String::from_str("true"),
                Literal::False => String::from_str("false"),
                Literal::String(string) => string.clone(),
                Literal::Number(number) => number.clone(),
            },
            Expr::Binary(binary) => {
                let mut operands: Vec<&Expr> = Vec::new();
                operands.push(&*binary.left);
                operands.push(&*binary.right);
                proof {
                    assert(operands@ =~= seq![&*binary.left, &*binary.right]);
                    assert(operands@.drop_last() =~= seq![&*binary.left]);
                    assert(operands@.drop_last().drop_last() =~= Seq::<&Expr>::empty());
                    assert(sizes(operands@) == size(binary.left@) + size(binary.right@)) by {
                        reveal_with_fuel(sizes, 3);
                    }
                    assert(renderings(operands@) =~= seq![
                        rendering(binary.left@),
                        rendering(binary.right@),
                    ]);
                }
                self.parenthesize(binary.operator.get_lexeme(), operands)
            },
            Expr::Grouping(grouping) => {
                let mut operands: Vec<&Expr> = Vec::new();
                operands.push(&*grouping.expression);
                proof {
                    assert(operands@ =~= seq![&*grouping.expression]);
                    assert(operands@.drop_last() =~= Seq::<&Expr>::empty());
                    assert(sizes(operands@) == size(grouping.expression@)) by {
                        reveal_with_fuel(sizes, 2);
                    }
                    assert(renderings(operands@) =~= seq![rendering(grouping.expression@)]);
                }
                self.parenthesize(String::from_str("group"), operands)
            },
            Expr::Unary(unary) => {
                let mut operands: Vec<&Expr> = Vec::new();
                operands.push(&*unary.right);
                proof {
                    assert(operands@ =~= seq![&*unary.right]);
                    assert(operands@.drop_last() =~= Seq::<&Expr>::empty());
                    assert(sizes(operands@) == size(unary.right@)) by {
                        reveal_with_fuel(sizes, 2);
                    }
                    assert(renderings(operands@) =~= seq![rendering(unary.right@)]);
                }
                self.parenthesize(unary.operator.get_lexeme(), operands)
            },
        }
    }
}

impl Visitor<Expr, String> for AstPrinter {
    open spec fn visits(&self, production: &Expr, result: String) -> bool {
        result@ == rendering(production@)
    }

    fn visit(&self, expr: &Expr) -> (result: String) {
        self.render(expr)
    }
}

} // verus!
