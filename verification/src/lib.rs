//! A small expression evaluator: literals, variables and the four
//! arithmetic operations over a tree that the caller builds.

pub mod decimal;
pub mod environment;
pub mod error;
pub mod evaluation;
pub mod expression;
pub mod laws;
pub mod result;

pub use environment::Environment;
pub use error::SchierkeError;
pub use expression::Expression;
pub use result::SchierkeResult;

use environment::Bindings;
use evaluation::{run, run_arithmetic, Operator, Outcome};
use expression::{terms, Term};
use vstd::prelude::*;
use vstd::std_specs::cmp::PartialEqSpecImpl;

verus! {

/// The evaluator. It keeps the default environment, which an evaluation
/// that is given no environment of its own works in, and which every
/// evaluation leaves behind for the next.
pub struct Schierke {
    global: Environment,
}

impl View for Schierke {
    type V = Bindings;

    /// The bindings of the default environment.
    closed spec fn view(&self) -> Bindings {
        self.global@
    }
}

/// The bindings of the environment that an evaluation is given, if any.
pub open spec fn given(env: Option<Environment>) -> Option<Bindings> {
    match env {
        Some(environment) => Some(environment@),
        None => None,
    }
}

/// What an evaluation returns, as a mathematical value.
pub open spec fn answer(returned: Result<Expression, SchierkeError>) -> Result<
    Term,
    SchierkeError,
> {
    match returned {
        Ok(value) => Ok(value@),
        Err(error) => Err(error),
    }
}

impl Schierke {
    /// An evaluator whose default environment binds nothing.
    pub fn new() -> (made: Schierke)
        ensures
            made@ == Map::<Seq<char>, Term>::empty(),
    {
        Schierke { global: Default::default() }
    }

    /// Evaluates `exp`, in `env` where one is given and else in a copy of
    /// the default environment, and returns its value or the error it ends
    /// with. The default environment is afterwards what [`run`] says.
    ///
    /// An arithmetic operation without a result, which is a division by
    /// zero or a result that a signed 64-bit number cannot hold, is not
    /// reported as an error: the caller rules it out.
    pub fn eval(&mut self, exp: Expression, env: Option<Environment>) -> (returned: Result<
        Expression,
        SchierkeError,
    >)
        requires
            run(exp@, given(env), old(self)@) is Some,
        ensures
            run(exp@, given(env), old(self)@) == Some(
                Outcome { result: answer(returned), global: final(self)@ },
            ),
        decreases exp@, 1int,
    {
        let mut working = match env {
            Some(environment) => environment,
            None => self.global.clone(),
        };
        match exp {
            Expression::Number(n) => {
                self.global.load(working);
                Ok(Expression::Number(n))
            },
            Expression::String(text) => {
                self.global.load(working);
                Ok(Expression::String(text))
            },
            Expression::Variable(parts) => {
                if parts.len() == 1 {
                    let found = working.lookup(parts[0].to_string());
                    self.global.load(working);
                    found
                } else if parts.len() == 2 {
                    match self.eval(parts[1].clone(), None) {
                        Err(error) => Err(error),
                        Ok(value) => {
                            let bound = working.define(parts[0].clone(), value);
                            self.global.load(working);
                            Ok(bound)
                        },
                    }
                } else {
                    self.global.load(working);
                    Err(SchierkeError::TooMuchArguments)
                }
            },
            Expression::Add(parts) => self.arithmetic(Operator::Add, parts, working),
            Expression::Subtract(parts) => self.arithmetic(Operator::Subtract, parts, working),
            Expression::Multiply(parts) => self.arithmetic(Operator::Multiply, parts, working),
            Expression::Divide(parts) => self.arithmetic(Operator::Divide, parts, working),
        }
    }

    /// Evaluates the arithmetic node of `operator` over `parts`.
    fn arithmetic(
        &mut self,
        operator: Operator,
        parts: Vec<Expression>,
        working: Environment,
    ) -> (returned: Result<Expression, SchierkeError>)
        requires
            run_arithmetic(operator, terms(parts@), working@, old(self)@) is Some,
        ensures
            run_arithmetic(operator, terms(parts@), working@, old(self)@) == Some(
                Outcome { result: answer(returned), global: final(self)@ },
            ),
        decreases terms(parts@), 0int,
    {
        if parts.len() != 2 {
            self.global.load(working);
            return Err(SchierkeError::UnknownExpression);
        }
        let left = match self.eval(parts[0].clone(), None) {
            Err(error) => return Err(error),
            Ok(value) => match i64::try_from(value) {
                Ok(number) => number,
                Err(_) => return Err(SchierkeError::UnknownExpression),
            },
        };
        let right = match self.eval(parts[1].clone(), None) {
            Err(error) => return Err(error),
            Ok(value) => match i64::try_from(value) {
                Ok(number) => number,
                Err(_) => return Err(SchierkeError::UnknownExpression),
            },
        };
        let result = operator.compute(left, right);
        self.global.load(working);
        Ok(Expression::Number(result))
    }
}

impl Default for Schierke {
    /// An evaluator whose default environment binds nothing.
    fn default() -> (made: Schierke)
        ensures
            made@ == Map::<Seq<char>, Term>::empty(),
    {
        Schierke::new()
    }
}

impl Clone for Schierke {
    /// An evaluator of its own with the same default bindings.
    fn clone(&self) -> (copy: Schierke)
        ensures
            copy@ == self@,
    {
        Schierke { global: self.global.clone() }
    }
}

impl PartialEq for Schierke {
    /// Two evaluators are equal where their default bindings are.
    fn eq(&self, other: &Schierke) -> (same: bool) {
        self.global == other.global
    }
}

impl PartialEqSpecImpl for Schierke {
    open spec fn obeys_eq_spec() -> bool {
        true
    }

    open spec fn eq_spec(&self, other: &Schierke) -> bool {
        self@ == other@
    }
}

} // verus!
