//! The expression tree and its mathematical form.

use crate::decimal::{decimal, decimal_string};
use vstd::prelude::*;
use vstd::std_specs::cmp::PartialEqSpecImpl;
use vstd::std_specs::convert::TryFromSpecImpl;

verus! {

/// An expression as a mathematical value: the tree that an [`Expression`]
/// stands for, with unbounded integers and with sequences for its text and
/// its parts.
pub enum Term {
    /// An integer literal.
    Number(int),
    /// A text literal.
    Text(Seq<char>),
    /// A variable node: one part reads the variable that the part names, two
    /// parts bind the variable that the first names to the value of the
    /// second.
    Variable(Seq<Term>),
    /// The sum of two parts.
    Add(Seq<Term>),
    /// The difference of two parts.
    Subtract(Seq<Term>),
    /// The product of two parts.
    Multiply(Seq<Term>),
    /// The quotient of two parts.
    Divide(Seq<Term>),
}

impl Term {
    /// The term as text. A number is written in decimal notation, a text
    /// stands for itself, a variable node is written as its first part, and
    /// an arithmetic node as its first two parts around the operator's sign.
    /// A part that is missing contributes no text.
    pub open spec fn render(self) -> Seq<char>
        decreases self,
    {
        match self {
            Term::Number(n) => decimal(n),
            Term::Text(text) => text,
            Term::Variable(parts) => render_part(parts, 0),
            Term::Add(parts) => render_part(parts, 0) + " + "@ + render_part(parts, 1),
            Term::Subtract(parts) => render_part(parts, 0) + " - "@ + render_part(parts, 1),
            Term::Multiply(parts) => render_part(parts, 0) + " * "@ + render_part(parts, 1),
            Term::Divide(parts) => render_part(parts, 0) + " / "@ + render_part(parts, 1),
        }
    }
}

/// The text of the part at `index`, empty where there is no such part.
pub open spec fn render_part(parts: Seq<Term>, index: int) -> Seq<char>
    decreases parts,
{
    if 0 <= index < parts.len() {
        parts[index].render()
    } else {
        Seq::empty()
    }
}

/// A node of the expression tree. Nothing is checked when a node is built:
/// a node with the wrong number of parts is an expression like any other,
/// and it is evaluation that rejects it.
#[derive(Debug)]
pub enum Expression {
    /// An integer literal.
    Number(i64),
    /// A text literal.
    String(String),
    /// With one part, reads the variable that the part names; with two,
    /// binds the variable that the first names to the value of the second.
    Variable(Vec<Expression>),
    /// The sum of two parts.
    Add(Vec<Expression>),
    /// The difference of two parts.
    Subtract(Vec<Expression>),
    /// The product of two parts.
    Multiply(Vec<Expression>),
    /// The quotient of two parts.
    Divide(Vec<Expression>),
}

/// The terms that a sequence of expressions stands for, part by part.
pub open spec fn terms(parts: Seq<Expression>) -> Seq<Term>
    decreases parts, 0int,
{
    Seq::new(
        parts.len(),
        |i: int|
            if 0 <= i < parts.len() {
                parts[i]@
            } else {
                Term::Number(0)
            },
    )
}

impl View for Expression {
    type V = Term;

    open spec fn view(&self) -> Term
        decreases self, 1int,
    {
        match self {
            Expression::Number(n) => Term::Number(*n as int),
            Expression::String(text) => Term::Text(text@),
            Expression::Variable(parts) => Term::Variable(terms(parts@)),
            Expression::Add(parts) => Term::Add(terms(parts@)),
            Expression::Subtract(parts) => Term::Subtract(terms(parts@)),
            Expression::Multiply(parts) => Term::Multiply(terms(parts@)),
            Expression::Divide(parts) => Term::Divide(terms(parts@)),
        }
    }
}

fn clone_parts(parts: &Vec<Expression>) -> (copy: Vec<Expression>)
    ensures
        terms(copy@) == terms(parts@),
    decreases parts, 0int,
{
    let mut copy: Vec<Expression> = Vec::new();
    let mut i: usize = 0;
    while i < parts.len()
        invariant
            i <= parts.len(),
            copy.len() == i,
            forall|j: int| 0 <= j < i ==> copy[j]@ == parts[j]@,
        decreases parts.len() - i,
    {
        copy.push(parts[i].clone());
        i += 1;
    }
    assert(terms(copy@) =~= terms(parts@));
    copy
}

impl Clone for Expression {
    /// A deep copy: a tree of its own that stands for the same term.
    fn clone(&self) -> (copy: Self)
        ensures
            copy@ == self@,
        decreases self, 1int,
    {
        match self {
            Expression::Number(n) => Expression::Number(*n),
            Expression::String(text) => Expression::String(text.clone()),
            Expression::Variable(parts) => Expression::Variable(clone_parts(parts)),
            Expression::Add(parts) => Expression::Add(clone_parts(parts)),
            Expression::Subtract(parts) => Expression::Subtract(clone_parts(parts)),
            Expression::Multiply(parts) => Expression::Multiply(clone_parts(parts)),
            Expression::Divide(parts) => Expression::Divide(clone_parts(parts)),
        }
    }
}

fn same_parts(left: &Vec<Expression>, right: &Vec<Expression>) -> (same: bool)
    ensures
        same == (terms(left@) == terms(right@)),
    decreases left, 0int,
{
    if left.len() != right.len() {
        assert(terms(left@).len() != terms(right@).len());
        return false;
    }
    let mut i: usize = 0;
    while i < left.len()
        invariant
            i <= left.len(),
            left.len() == right.len(),
            forall|j: int| 0 <= j < i ==> left[j]@ == right[j]@,
        decreases left.len() - i,
    {
        if !left[i].same(&right[i]) {
            assert(terms(left@)[i as int] != terms(right@)[i as int]);
            return false;
        }
        i += 1;
    }
    assert(terms(left@) =~= terms(right@));
    true
}

impl Expression {
    /// Whether the two trees stand for the same term.
    fn same(&self, other: &Expression) -> (same: bool)
        ensures
            same == (self@ == other@),
        decreases self, 1int,
    {
        match self {
            Expression::Number(n) => match other {
                Expression::Number(m) => *n == *m,
                _ => false,
            },
            Expression::String(text) => match other {
                Expression::String(theirs) => *text == *theirs,
                _ => false,
            },
            Expression::Variable(parts) => match other {
                Expression::Variable(theirs) => same_parts(parts, theirs),
                _ => false,
            },
            Expression::Add(parts) => match other {
                Expression::Add(theirs) => same_parts(parts, theirs),
                _ => false,
            },
            Expression::Subtract(parts) => match other {
                Expression::Subtract(theirs) => same_parts(parts, theirs),
                _ => false,
            },
            Expression::Multiply(parts) => match other {
                Expression::Multiply(theirs) => same_parts(parts, theirs),
                _ => false,
            },
            Expression::Divide(parts) => match other {
                Expression::Divide(theirs) => same_parts(parts, theirs),
                _ => false,
            },
        }
    }
}

impl PartialEq for Expression {
    /// Structural equality: the same kind of node over equal parts.
    fn eq(&self, other: &Expression) -> (same: bool) {
        self.same(other)
    }
}

impl PartialEqSpecImpl for Expression {
    open spec fn obeys_eq_spec() -> bool {
        true
    }

    open spec fn eq_spec(&self, other: &Expression) -> bool {
        self@ == other@
    }
}

fn part_string(parts: &Vec<Expression>, index: usize) -> (text: String)
    ensures
        text@ == render_part(terms(parts@), index as int),
    decreases parts, 0int,
{
    if index < parts.len() {
        parts[index].to_string()
    } else {
        String::new()
    }
}

fn infix_string(parts: &Vec<Expression>, sign: &str) -> (text: String)
    ensures
        text@ == render_part(terms(parts@), 0) + sign@ + render_part(terms(parts@), 1),
    decreases parts, 1int,
{
    let mut text = part_string(parts, 0);
    text.append(sign);
    let right = part_string(parts, 1);
    text.append(right.as_str());
    text
}

impl Expression {
    /// The expression as text, which is also the name under which a
    /// variable is kept when the expression stands for one.
    pub fn to_string(&self) -> (text: String)
        ensures
            text@ == self@.render(),
        decreases self, 2int,
    {
        match self {
            Expression::Number(n) => decimal_string(*n),
            Expression::String(text) => text.clone(),
            Expression::Variable(parts) => part_string(parts, 0),
            Expression::Add(parts) => infix_string(parts, " + "),
            Expression::Subtract(parts) => infix_string(parts, " - "),
            Expression::Multiply(parts) => infix_string(parts, " * "),
            Expression::Divide(parts) => infix_string(parts, " / "),
        }
    }
}

impl TryFrom<Expression> for i64 {
    type Error = &'static str;

    /// The number that a number literal holds; no other expression is a
    /// number.
    fn try_from(value: Expression) -> (number: Result<i64, &'static str>) {
        match value {
            Expression::Number(n) => Ok(n),
            _ => Err("Cannot convert non-number Expression to i64"),
        }
    }
}

impl TryFromSpecImpl<Expression> for i64 {
    open spec fn obeys_try_from_spec() -> bool {
        true
    }

    open spec fn try_from_spec(value: Expression) -> Result<i64, &'static str> {
        match value {
            Expression::Number(n) => Ok(n),
            _ => Err("Cannot convert non-number Expression to i64"),
        }
    }
}

} // verus!
