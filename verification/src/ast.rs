//! The syntax tree: expressions and statements.
use vstd::prelude::*;
use vstd::std_specs::cmp::PartialEqSpecImpl;

verus! {

/// A binary operator of the language.
#[derive(Debug, Clone, Copy, PartialEq, Eq, Structural)]
pub enum BinaryOperator {
    /// Addition.
    Plus,
}

/// An expression: a strict tree, each operand owned by its operator.
#[derive(Debug)]
pub enum Expr {
    /// An integer literal.
    Number(i64),
    /// A reference to a variable, resolved when it is evaluated.
    Identifier(String),
    /// An operator between a left and a right operand.
    BinaryOp(Box<Expr>, BinaryOperator, Box<Expr>),
}

/// What an [`Expr`] is, with names as sequences of characters.
pub ghost enum ExprView {
    Number(i64),
    Identifier(Seq<char>),
    BinaryOp(Box<ExprView>, BinaryOperator, Box<ExprView>),
}

impl View for Expr {
    type V = ExprView;

    open spec fn view(&self) -> ExprView
        decreases self,
    {
        match self {
            Expr::Number(n) => ExprView::Number(*n),
            Expr::Identifier(name) => ExprView::Identifier(name@),
            Expr::BinaryOp(left, op, right) => ExprView::BinaryOp(
                Box::new((**left).view()),
                *op,
                Box::new((**right).view()),
            ),
        }
    }
}

impl Expr {
    /// A copy of the whole tree.
    fn duplicate(&self) -> (r: Expr)
        ensures
            r@ == self@,
        decreases self,
    {
        match self {
            Expr::Number(n) => Expr::Number(*n),
            Expr::Identifier(name) => Expr::Identifier(name.clone()),
            Expr::BinaryOp(left, op, right) => Expr::BinaryOp(
                Box::new(left.duplicate()),
                *op,
                Box::new(right.duplicate()),
            ),
        }
    }
}

impl Expr {
    /// Whether two trees have the same shape and the same leaves.
    fn same(&self, other: &Expr) -> (r: bool)
        ensures
            r == (self@ == other@),
        decreases self,
    {
        match (self, other) {
            (Expr::Number(a), Expr::Number(b)) => *a == *b,
            (Expr::Identifier(a), Expr::Identifier(b)) => *a == *b,
            (Expr::BinaryOp(left, op, right), Expr::BinaryOp(other_left, other_op, other_right)) => {
                *op == *other_op && left.same(other_left) && right.same(other_right)
            },
            _ => false,
        }
    }
}

impl PartialEq for Expr {
    fn eq(&self, other: &Expr) -> (r: bool) {
        self.same(other)
    }
}

impl PartialEqSpecImpl for Expr {
    open spec fn obeys_eq_spec() -> bool {
        true
    }

    /// Two expressions are equal when they are the same tree.
    open spec fn eq_spec(&self, other: &Expr) -> bool {
        self@ == other@
    }
}

impl Clone for Expr {
    fn clone(&self) -> (r: Expr)
        ensures
            r@ == self@,
    {
        self.duplicate()
    }
}

/// A statement of a program.
#[derive(Debug)]
pub enum Statement {
    /// Binds the name to the value of the expression, or binds it anew.
    Let(String, Expr),
    /// Prints the value of the expression.
    Print(Expr),
}

/// What a [`Statement`] is.
pub ghost enum StatementView {
    Let(Seq<char>, ExprView),
    Print(ExprView),
}

impl View for Statement {
    type V = StatementView;

    open spec fn view(&self) -> StatementView {
        match self {
            Statement::Let(name, value) => StatementView::Let(name@, value@),
            Statement::Print(value) => StatementView::Print(value@),
        }
    }
}

impl PartialEq for Statement {
    fn eq(&self, other: &Statement) -> (r: bool) {
        match (self, other) {
            (Statement::Let(name, value), Statement::Let(other_name, other_value)) => {
                *name == *other_name && value.same(other_value)
            },
            (Statement::Print(value), Statement::Print(other_value)) => value.same(other_value),
            _ => false,
        }
    }
}

impl PartialEqSpecImpl for Statement {
    open spec fn obeys_eq_spec() -> bool {
        true
    }

    /// Two statements are equal when they are of one kind, with the same
    /// name and the same expression.
    open spec fn eq_spec(&self, other: &Statement) -> bool {
        self@ == other@
    }
}

impl Clone for Statement {
    fn clone(&self) -> (r: Statement)
        ensures
            r@ == self@,
    {
        match self {
            Statement::Let(name, value) => Statement::Let(name.clone(), value.duplicate()),
            Statement::Print(value) => Statement::Print(value.duplicate()),
        }
    }
}

/// What a sequence of statements is, in order.
pub open spec fn statements_view(statements: Seq<Statement>) -> Seq<StatementView> {
    statements.map_values(|s: Statement| s@)
}

} // verus!
