//! Laws of evaluation, proved of [`run`], in whose terms the evaluator's
//! contract is stated.

use crate::environment::Bindings;
use crate::error::SchierkeError;
use crate::evaluation::{
    fits, number_of, quotient, read, run, run_arithmetic, working, Operator, Outcome,
};
use crate::expression::Term;
use vstd::prelude::*;

verus! {

/// An arithmetic node over two number literals evaluates to the number that
/// the operation gives on them, wherever a signed 64-bit number can hold it
/// and, for a division, the divisor is not zero; where not, the evaluation
/// has no outcome. The working bindings become the default bindings
/// unchanged.
pub proof fn law_arithmetic_of_numbers(a: int, b: int, local: Option<Bindings>, global: Bindings)
    ensures
        fits(a + b) ==> run(Term::Add(seq![Term::Number(a), Term::Number(b)]), local, global)
            == Some(Outcome { result: Ok(Term::Number(a + b)), global: working(local, global) }),
        fits(a - b) ==> run(Term::Subtract(seq![Term::Number(a), Term::Number(b)]), local, global)
            == Some(Outcome { result: Ok(Term::Number(a - b)), global: working(local, global) }),
        fits(a * b) ==> run(Term::Multiply(seq![Term::Number(a), Term::Number(b)]), local, global)
            == Some(Outcome { result: Ok(Term::Number(a * b)), global: working(local, global) }),
        b != 0 && fits(quotient(a, b)) ==> run(
            Term::Divide(seq![Term::Number(a), Term::Number(b)]),
            local,
            global,
        ) == Some(
            Outcome { result: Ok(Term::Number(quotient(a, b))), global: working(local, global) },
        ),
        !fits(a + b) ==> run(Term::Add(seq![Term::Number(a), Term::Number(b)]), local, global)
            is None,
        !fits(a - b) ==> run(Term::Subtract(seq![Term::Number(a), Term::Number(b)]), local, global)
            is None,
        !fits(a * b) ==> run(Term::Multiply(seq![Term::Number(a), Term::Number(b)]), local, global)
            is None,
        b == 0 || !fits(quotient(a, b)) ==> run(
            Term::Divide(seq![Term::Number(a), Term::Number(b)]),
            local,
            global,
        ) is None,
{
    let parts = seq![Term::Number(a), Term::Number(b)];
    assert(parts.len() == 2);
    assert(parts[0] == Term::Number(a));
    assert(parts[1] == Term::Number(b));
    assert(run(parts[0], None, global) == Some(Outcome { result: Ok(parts[0]), global }));
    assert(run(parts[1], None, global) == Some(Outcome { result: Ok(parts[1]), global }));
}

/// The quotient is the exact one rounded towards zero: what is left over is
/// smaller than the divisor in size, and is zero or has the dividend's sign.
pub proof fn law_quotient_rounds_towards_zero(a: int, b: int)
    requires
        b != 0,
    ensures
        ({
            let rest = a - quotient(a, b) * b;
            &&& a >= 0 ==> 0 <= rest
            &&& a <= 0 ==> rest <= 0
            &&& b > 0 ==> -b < rest < b
            &&& b < 0 ==> b < rest < -b
        }),
{
    let size_a = if a >= 0 {
        a
    } else {
        -a
    };
    let size_b = if b > 0 {
        b
    } else {
        -b
    };
    let q = size_a / size_b;
    vstd::arithmetic::div_mod::lemma_fundamental_div_mod(size_a, size_b);
    vstd::arithmetic::div_mod::lemma_mod_bound(size_a, size_b);
    assert(size_a == size_b * q + size_a % size_b);
    assert(0 <= size_a % size_b < size_b);
    if a >= 0 {
        if b > 0 {
            assert(quotient(a, b) == q);
            assert(q * b == size_b * q) by (nonlinear_arith)
                requires
                    b == size_b,
            ;
        } else {
            assert(quotient(a, b) == -q);
            assert((-q) * b == size_b * q) by (nonlinear_arith)
                requires
                    b == -size_b,
            ;
        }
    } else {
        if b > 0 {
            assert(quotient(a, b) == -q);
            assert((-q) * b == -(size_b * q)) by (nonlinear_arith)
                requires
                    b == size_b,
            ;
        } else {
            assert(quotient(a, b) == q);
            assert(q * b == -(size_b * q)) by (nonlinear_arith)
                requires
                    b == -size_b,
            ;
        }
    }
}

/// A literal evaluates to itself, and with no environment given it leaves
/// the default bindings as they were: evaluating it again gives the same
/// once more.
pub proof fn law_literal_is_its_value(term: Term, local: Option<Bindings>, global: Bindings)
    requires
        term is Number || term is Text,
    ensures
        run(term, local, global) == Some(
            Outcome { result: Ok(term), global: working(local, global) },
        ),
        run(term, None, global) == Some(Outcome { result: Ok(term), global }),
        run(term, None, run(term, None, global).unwrap().global) == run(term, None, global),
{
}

/// Reading a variable gives what its name is bound to in the working
/// bindings, and `UndefinedVariable` exactly where the name is not bound.
/// The working bindings become the default bindings unchanged.
pub proof fn law_read(name: Term, local: Option<Bindings>, global: Bindings)
    ensures
        run(Term::Variable(seq![name]), local, global) == Some(
            Outcome {
                result: read(working(local, global), name.render()),
                global: working(local, global),
            },
        ),
        working(local, global).contains_key(name.render()) ==> read(
            working(local, global),
            name.render(),
        ) == Ok::<Term, SchierkeError>(working(local, global)[name.render()]),
        !working(local, global).contains_key(name.render()) ==> read(
            working(local, global),
            name.render(),
        ) == Err::<Term, SchierkeError>(SchierkeError::UndefinedVariable),
{
    let parts = seq![name];
    assert(parts.len() == 1);
    assert(parts[0] == name);
}

/// Binding a variable to an expression that evaluates to a value gives
/// that value and binds the name to it in the working bindings, which
/// become the default bindings; reading the variable next, with no
/// environment given, gives the same value.
pub proof fn law_bind_then_read(
    name: Term,
    value: Term,
    bound: Term,
    local: Option<Bindings>,
    global: Bindings,
)
    requires
        run(value, None, global) matches Some(outcome) && outcome.result == Ok::<
            Term,
            SchierkeError,
        >(bound),
    ensures
        ({
            let after = working(local, global).insert(name.render(), bound);
            &&& run(Term::Variable(seq![name, value]), local, global) == Some(
                Outcome { result: Ok(bound), global: after },
            )
            &&& run(Term::Variable(seq![name]), None, after) == Some(
                Outcome { result: Ok(bound), global: after },
            )
        }),
{
    let binding = seq![name, value];
    assert(binding.len() == 2);
    assert(binding[0] == name);
    assert(binding[1] == value);
    let reading = seq![name];
    assert(reading.len() == 1);
    assert(reading[0] == name);
}

/// A variable node with no part, or with three parts or more, fails with
/// `TooMuchArguments`. The working bindings become the default bindings
/// unchanged.
pub proof fn law_variable_arity(parts: Seq<Term>, local: Option<Bindings>, global: Bindings)
    requires
        parts.len() != 1,
        parts.len() != 2,
    ensures
        run(Term::Variable(parts), local, global) == Some(
            Outcome {
                result: Err(SchierkeError::TooMuchArguments),
                global: working(local, global),
            },
        ),
{
}

/// An arithmetic node that does not have exactly two parts fails with
/// `UnknownExpression`. The working bindings become the default bindings
/// unchanged.
pub proof fn law_arithmetic_arity(
    operator: Operator,
    parts: Seq<Term>,
    local: Option<Bindings>,
    global: Bindings,
)
    requires
        parts.len() != 2,
    ensures
        run(operator.node(parts), local, global) == Some(
            Outcome {
                result: Err(SchierkeError::UnknownExpression),
                global: working(local, global),
            },
        ),
{
}

/// An arithmetic node fails with `UnknownExpression` where its left part
/// evaluates to a value that is no number, and where its left part
/// evaluates to a number and its right part to a value that is none. The
/// default bindings stay as the part that was evaluated last left them.
pub proof fn law_operand_is_no_number(
    operator: Operator,
    left: Term,
    right: Term,
    local: Option<Bindings>,
    global: Bindings,
)
    requires
        run(left, None, global) matches Some(first) && first.result is Ok && (
        first.result->Ok_0 is Number ==> (run(right, None, first.global) matches Some(second)
            && second.result is Ok && !(second.result->Ok_0 is Number))),
    ensures
        ({
            let first = run(left, None, global).unwrap();
            let last = if first.result->Ok_0 is Number {
                run(right, None, first.global).unwrap()
            } else {
                first
            };
            run(operator.node(seq![left, right]), local, global) == Some(
                Outcome { result: Err(SchierkeError::UnknownExpression), global: last.global },
            )
        }),
{
    let parts = seq![left, right];
    assert(parts.len() == 2);
    assert(parts[0] == left);
    assert(parts[1] == right);
}

/// A part that fails makes its arithmetic node fail with the same error,
/// provided that the parts before it evaluated to numbers. The default
/// bindings stay as the failing part left them.
pub proof fn law_operand_fails(
    operator: Operator,
    left: Term,
    right: Term,
    local: Option<Bindings>,
    global: Bindings,
)
    requires
        run(left, None, global) matches Some(first) && (match first.result {
            Err(_) => true,
            Ok(value) => value is Number && (run(right, None, first.global) matches Some(second)
                && second.result is Err),
        }),
    ensures
        ({
            let first = run(left, None, global).unwrap();
            let last = if first.result is Err {
                first
            } else {
                run(right, None, first.global).unwrap()
            };
            run(operator.node(seq![left, right]), local, global) == Some(
                Outcome { result: Err(last.result->Err_0), global: last.global },
            )
        }),
{
    let parts = seq![left, right];
    assert(parts.len() == 2);
    assert(parts[0] == left);
    assert(parts[1] == right);
}

/// Whether evaluating `term` can bind `name`: whether `term`, or a part of
/// it that evaluation goes into, is a variable node of two parts whose
/// first part has `name` as its text.
pub open spec fn binds(term: Term, name: Seq<char>) -> bool
    decreases term,
{
    match term {
        Term::Number(_) | Term::Text(_) => false,
        Term::Variable(parts) => parts.len() == 2 && (parts[0].render() == name || binds(
            parts[1],
            name,
        )),
        Term::Add(parts) | Term::Subtract(parts) | Term::Multiply(parts) | Term::Divide(parts) => {
            parts.len() == 2 && (binds(parts[0], name) || binds(parts[1], name))
        },
    }
}

/// An evaluation that is given no environment unbinds nothing: a name that
/// the default bindings held before is held after, whether the evaluation
/// gave a value or failed.
pub proof fn law_names_stay_bound(term: Term, global: Bindings, name: Seq<char>)
    requires
        run(term, None, global) is Some,
        global.contains_key(name),
    ensures
        run(term, None, global).unwrap().global.contains_key(name),
    decreases term,
{
    match term {
        Term::Number(_) | Term::Text(_) => {},
        Term::Variable(parts) => {
            if parts.len() == 2 {
                law_names_stay_bound(parts[1], global, name);
            }
        },
        Term::Add(parts) | Term::Subtract(parts) | Term::Multiply(parts) | Term::Divide(parts) => {
            if parts.len() == 2 {
                law_names_stay_bound(parts[0], global, name);
                let first = run(parts[0], None, global).unwrap();
                if number_of(first.result) is Ok {
                    law_names_stay_bound(parts[1], first.global, name);
                }
            }
        },
    }
}

/// An evaluation that is given no environment leaves alone every name that
/// it cannot bind: reading the name gives afterwards what it gave before.
pub proof fn law_other_names_untouched(term: Term, global: Bindings, name: Seq<char>)
    requires
        run(term, None, global) is Some,
        !binds(term, name),
    ensures
        read(run(term, None, global).unwrap().global, name) == read(global, name),
    decreases term,
{
    match term {
        Term::Number(_) | Term::Text(_) => {},
        Term::Variable(parts) => {
            if parts.len() == 2 {
                law_other_names_untouched(parts[1], global, name);
            }
        },
        Term::Add(parts) | Term::Subtract(parts) | Term::Multiply(parts) | Term::Divide(parts) => {
            if parts.len() == 2 {
                law_other_names_untouched(parts[0], global, name);
                let first = run(parts[0], None, global).unwrap();
                if number_of(first.result) is Ok {
                    law_other_names_untouched(parts[1], first.global, name);
                }
            }
        },
    }
}

/// A binding outlives the failure of the arithmetic node that made it.
/// Where the left part of the node binds a variable to an expression that
/// evaluates to a value, and the node then fails, reading the variable
/// next, with no environment given, succeeds; it gives the value that was
/// bound unless the right part binds the same name again.
pub proof fn law_binding_outlives_failure(
    operator: Operator,
    name: Term,
    value: Term,
    bound: Term,
    right: Term,
    local: Option<Bindings>,
    global: Bindings,
)
    requires
        run(value, None, global) matches Some(outcome) && outcome.result == Ok::<
            Term,
            SchierkeError,
        >(bound),
        run(operator.node(seq![Term::Variable(seq![name, value]), right]), local, global)
            matches Some(outcome) && outcome.result is Err,
    ensures
        ({
            let failed = run(
                operator.node(seq![Term::Variable(seq![name, value]), right]),
                local,
                global,
            ).unwrap();
            let reading = run(Term::Variable(seq![name]), None, failed.global);
            &&& reading matches Some(outcome) && outcome.result is Ok && outcome.global
                == failed.global
            &&& !binds(right, name.render()) ==> reading.unwrap().result == Ok::<
                Term,
                SchierkeError,
            >(bound)
        }),
{
    let binding = Term::Variable(seq![name, value]);
    let parts = seq![binding, right];
    assert(parts.len() == 2);
    assert(parts[0] == binding);
    assert(parts[1] == right);
    law_bind_then_read(name, value, bound, None, global);
    let first = run(binding, None, global).unwrap();
    let key = name.render();
    assert(first.global == global.insert(key, bound));
    assert(first.global.contains_key(key));
    let failed = run(operator.node(parts), local, global).unwrap();
    assert(run(operator.node(parts), local, global) == run_arithmetic(
        operator,
        parts,
        working(local, global),
        global,
    ));
    if bound is Number {
        law_names_stay_bound(right, first.global, key);
        if !binds(right, key) {
            law_other_names_untouched(right, first.global, key);
        }
        assert(failed.global == run(right, None, first.global).unwrap().global);
    } else {
        assert(failed.global == first.global);
    }
    law_read(name, None, failed.global);
}

} // verus!
