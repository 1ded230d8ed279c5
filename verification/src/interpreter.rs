//! The interpreter: runs statements against one flat environment.
//!
//! Printed values are recorded in order; nothing is written anywhere. An
//! error is fatal: the statement that fails changes nothing, and no
//! statement after it runs. Addition that leaves the range of `i64` is such
//! an error.
use vstd::prelude::*;
use vstd::std_specs::cmp::PartialEqSpecImpl;
use vstd::hash_map::StringHashMap;
use crate::ast::{BinaryOperator, Expr, ExprView, Statement, StatementView, statements_view};

verus! {

/// Why a program stopped while it ran.
#[derive(Debug)]
pub enum RuntimeError {
    /// A variable was read before any `let` bound it.
    UndefinedVariable(String),
    /// A sum is less than `i64::MIN` or more than `i64::MAX`.
    Overflow,
}

/// What a [`RuntimeError`] is.
pub ghost enum RuntimeErrorView {
    UndefinedVariable(Seq<char>),
    Overflow,
}

impl View for RuntimeError {
    type V = RuntimeErrorView;

    open spec fn view(&self) -> RuntimeErrorView {
        match self {
            RuntimeError::UndefinedVariable(name) => RuntimeErrorView::UndefinedVariable(name@),
            RuntimeError::Overflow => RuntimeErrorView::Overflow,
        }
    }
}

impl PartialEq for RuntimeError {
    fn eq(&self, other: &RuntimeError) -> (r: bool) {
        match (self, other) {
            (RuntimeError::UndefinedVariable(name), RuntimeError::UndefinedVariable(other_name)) => {
                *name == *other_name
            },
            (RuntimeError::Overflow, RuntimeError::Overflow) => true,
            _ => false,
        }
    }
}

impl PartialEqSpecImpl for RuntimeError {
    open spec fn obeys_eq_spec() -> bool {
        true
    }

    /// Two errors are equal when they report the same thing.
    open spec fn eq_spec(&self, other: &RuntimeError) -> bool {
        self@ == other@
    }
}

impl Clone for RuntimeError {
    fn clone(&self) -> (r: RuntimeError)
        ensures
            r@ == self@,
    {
        match self {
            RuntimeError::UndefinedVariable(name) => RuntimeError::UndefinedVariable(name.clone()),
            RuntimeError::Overflow => RuntimeError::Overflow,
        }
    }
}

/// The variables that are bound, each with its current value.
pub type Environment = Map<Seq<char>, i64>;

/// What a run has come to: the bindings, and the values printed so far,
/// oldest first.
pub ghost struct State {
    pub variables: Environment,
    pub output: Seq<i64>,
}

/// The result of an operator on two values.
pub open spec fn apply(op: BinaryOperator, a: i64, b: i64) -> Result<i64, RuntimeErrorView> {
    match op {
        BinaryOperator::Plus => if i64::MIN <= a + b <= i64::MAX {
            Ok((a + b) as i64)
        } else {
            Err(RuntimeErrorView::Overflow)
        },
    }
}

/// The value of an expression. The left operand is evaluated before the
/// right one, so its error comes first.
pub open spec fn evaluate(variables: Environment, e: ExprView) -> Result<i64, RuntimeErrorView>
    decreases e,
{
    match e {
        ExprView::Number(n) => Ok(n),
        ExprView::Identifier(name) => if variables.contains_key(name) {
            Ok(variables[name])
        } else {
            Err(RuntimeErrorView::UndefinedVariable(name))
        },
        ExprView::BinaryOp(left, op, right) => match evaluate(variables, *left) {
            Err(err) => Err(err),
            Ok(a) => match evaluate(variables, *right) {
                Err(err) => Err(err),
                Ok(b) => apply(op, a, b),
            },
        },
    }
}

/// The state after one statement: `let` binds the name to the value, over
/// any earlier binding; `print` adds the value to the output.
pub open spec fn execute(state: State, statement: StatementView) -> Result<
    State,
    RuntimeErrorView,
> {
    match statement {
        StatementView::Let(name, value) => match evaluate(state.variables, value) {
            Err(err) => Err(err),
            Ok(v) => Ok(State { variables: state.variables.insert(name, v), ..state }),
        },
        StatementView::Print(value) => match evaluate(state.variables, value) {
            Err(err) => Err(err),
            Ok(v) => Ok(State { output: state.output.push(v), ..state }),
        },
    }
}

/// How a run ended: the state it reached, and the error that stopped it, if
/// one did.
pub ghost struct Run {
    pub state: State,
    pub error: Option<RuntimeErrorView>,
}

/// Runs the statements in order from `state`, up to the first that fails.
pub open spec fn run(state: State, statements: Seq<StatementView>) -> Run
    decreases statements.len(),
{
    if statements.len() == 0 {
        Run { state, error: None }
    } else {
        match execute(state, statements[0]) {
            Err(err) => Run { state, error: Some(err) },
            Ok(next) => run(next, statements.skip(1)),
        }
    }
}

/// An interpreter, with the environment of one run and what it printed.
pub struct Interpreter {
    variables: StringHashMap<i64>,
    output: Vec<i64>,
}

impl View for Interpreter {
    type V = State;

    closed spec fn view(&self) -> State {
        State { variables: self.variables@, output: self.output@ }
    }
}

impl Interpreter {
    /// An interpreter with no variable bound and nothing printed.
    pub fn new() -> (interpreter: Interpreter)
        ensures
            interpreter@ == (State { variables: Map::empty(), output: Seq::empty() }),
    {
        Interpreter { variables: StringHashMap::new(), output: Vec::new() }
    }

    /// The values printed so far, oldest first.
    pub fn output(&self) -> (values: &Vec<i64>)
        ensures
            values@ == self@.output,
    {
        &self.output
    }

    /// The current value of the variable `name`, if it is bound.
    pub fn lookup(&self, name: &str) -> (value: Option<i64>)
        ensures
            value == if self@.variables.contains_key(name@) {
                Some(self@.variables[name@])
            } else {
                None
            },
    {
        match self.variables.get(name) {
            Some(v) => Some(*v),
            None => None,
        }
    }

    /// Evaluates an expression against the current bindings.
    fn evaluate_expression(&self, expr: &Expr) -> (r: Result<i64, RuntimeError>)
        ensures
            match evaluate(self@.variables, expr@) {
                Ok(v) => r == Ok::<i64, RuntimeError>(v),
                Err(err) => r matches Err(e) && e@ == err,
            },
        decreases expr,
    {
        match expr {
            Expr::Number(n) => Ok(*n),
            Expr::Identifier(name) => match self.variables.get(name.as_str()) {
                Some(v) => Ok(*v),
                None => Err(RuntimeError::UndefinedVariable(name.clone())),
            },
            Expr::BinaryOp(left, op, right) => {
                let a = match self.evaluate_expression(left) {
                    Ok(a) => a,
                    Err(e) => {
                        return Err(e);
                    },
                };
                let b = match self.evaluate_expression(right) {
                    Ok(b) => b,
                    Err(e) => {
                        return Err(e);
                    },
                };
                match op {
                    BinaryOperator::Plus => match a.checked_add(b) {
                        Some(sum) => Ok(sum),
                        None => Err(RuntimeError::Overflow),
                    },
                }
            },
        }
    }

    /// Runs one statement.
    fn execute_statement(&mut self, statement: &Statement) -> (r: Result<(), RuntimeError>)
        ensures
            match execute(old(self)@, statement@) {
                Ok(next) => r is Ok && final(self)@ == next,
                Err(err) => r matches Err(e) && e@ == err && final(self)@ == old(self)@,
            },
    {
        match statement {
            Statement::Let(name, value) => match self.evaluate_expression(value) {
                Ok(v) => {
                    self.variables.insert(name.clone(), v);
                    Ok(())
                },
                Err(e) => Err(e),
            },
            Statement::Print(value) => match self.evaluate_expression(value) {
                Ok(v) => {
                    self.output.push(v);
                    Ok(())
                },
                Err(e) => Err(e),
            },
        }
    }

    /// Runs the statements in order. At the first error the run stops:
    /// what the statements before it did stays, and nothing after it runs.
    pub fn interpret(&mut self, statements: Vec<Statement>) -> (r: Result<(), RuntimeError>)
        ensures
            final(self)@ == run(old(self)@, statements_view(statements@)).state,
            match run(old(self)@, statements_view(statements@)).error {
                None => r is Ok,
                Some(err) => r matches Err(e) && e@ == err,
            },
    {
        let ghost all = statements_view(statements@);
        let mut i: usize = 0;
        assert(all.skip(0) == all);
        while i < statements.len()
            invariant
                i <= statements.len(),
                all == statements_view(statements@),
                run(old(self)@, all) == run(self@, all.skip(i as int)),
            decreases statements.len() - i,
        {
            proof {
                assert(all.skip(i as int)[0] == statements@[i as int]@);
                assert(all.skip(i as int).skip(1) == all.skip(i + 1));
            }
            match self.execute_statement(&statements[i]) {
                Ok(()) => {},
                Err(e) => {
                    return Err(e);
                },
            }
            i = i + 1;
        }
        Ok(())
    }
}

} // verus!
