//! Arithmetic on scalars, done by the caller.
//!
//! The engine decides, orders and selects; it never adds or multiplies. The
//! numbers it needs are described as [`Formula`]s, and their values are
//! worked out one [`Operation`] at a time by an arithmetic that the caller
//! hands in, which on ordinary hardware is IEEE-754 single precision. What
//! a function of the engine returns is therefore stated as: a value that
//! the caller's arithmetic gives to this formula.

use vstd::prelude::*;
use crate::scalar::Scalar;
use crate::timespan::TimeSpan;

verus! {

/// An operation on two numbers.
#[derive(Clone, Copy, Debug, PartialEq, Eq, Structural)]
pub enum Binary {
    /// `a + b`.
    Sum,
    /// `a - b`.
    Difference,
    /// `a * b`.
    Product,
    /// `a / b`.
    Quotient,
    /// `a % b`.
    Remainder,
}

/// An operation on one number.
#[derive(Clone, Copy, Debug, PartialEq, Eq, Structural)]
pub enum Unary {
    /// The exponential function.
    Exp,
    /// The sine.
    Sine,
    /// The logarithm to base two.
    Log2,
    /// The square root.
    SquareRoot,
}

/// One step of arithmetic that the engine asks its caller to do.
#[derive(Clone, Copy, Debug)]
pub enum Operation {
    /// An operation on two numbers.
    Binary(Binary, Scalar, Scalar),
    /// An operation on one number.
    Unary(Unary, Scalar),
    /// The number nearest to an integer.
    Integer(u64),
    /// A span of time in seconds.
    Seconds(TimeSpan),
}

/// A number described by how it is worked out.
pub enum Formula {
    /// A number that is given.
    Value(Scalar),
    /// The number nearest to an integer.
    Integer(u64),
    /// A span of time in seconds.
    Seconds(TimeSpan),
    /// An operation on two numbers.
    Binary(Binary, Box<Formula>, Box<Formula>),
    /// An operation on one number.
    Unary(Unary, Box<Formula>),
    /// A number with its sign changed.
    Negated(Box<Formula>),
    /// The smaller of a number and a limit.
    AtMost(Box<Formula>, Scalar),
}

/// Marks a number as the value of the part a formula is built on.
pub open spec fn operand(x: Scalar) -> bool {
    true
}

/// Marks two numbers as the values of the two parts a formula is built on.
pub open spec fn operands(x: Scalar, y: Scalar) -> bool {
    true
}

/// Whether the arithmetic answers every operation.
pub open spec fn total<A: Fn(Operation) -> Scalar>(arithmetic: A) -> bool {
    forall|operation: Operation| call_requires(arithmetic, (operation,))
}

/// Whether `result` is a value that the arithmetic gives to the formula:
/// the value of each part is one that the arithmetic returned for the
/// operation on the values of the parts below it. Changing a sign and
/// taking the smaller of two numbers need no arithmetic.
pub open spec fn evaluates<A: Fn(Operation) -> Scalar>(
    arithmetic: A,
    formula: Formula,
    result: Scalar,
) -> bool
    decreases formula,
{
    match formula {
        Formula::Value(value) => result == value,
        Formula::Integer(n) => call_ensures(arithmetic, (Operation::Integer(n),), result),
        Formula::Seconds(span) => call_ensures(arithmetic, (Operation::Seconds(span),), result),
        Formula::Binary(op, left, right) => exists|x: Scalar, y: Scalar|
            #![trigger operands(x, y)]
            operands(x, y) && evaluates(arithmetic, *left, x) && evaluates(arithmetic, *right, y)
                && call_ensures(arithmetic, (Operation::Binary(op, x, y),), result),
        Formula::Unary(op, inner) => exists|x: Scalar|
            #![trigger operand(x)]
            operand(x) && evaluates(arithmetic, *inner, x) && call_ensures(
                arithmetic,
                (Operation::Unary(op, x),),
                result,
            ),
        Formula::Negated(inner) => exists|x: Scalar|
            #![trigger operand(x)]
            operand(x) && evaluates(arithmetic, *inner, x) && result == x.spec_negated(),
        Formula::AtMost(inner, limit) => exists|x: Scalar|
            #![trigger operand(x)]
            operand(x) && evaluates(arithmetic, *inner, x) && result == x.spec_min(limit),
    }
}

/// Whether the arithmetic returns one result only for each operation, as
/// arithmetic on hardware does.
pub open spec fn deterministic<A: Fn(Operation) -> Scalar>(arithmetic: A) -> bool {
    forall|operation: Operation, first: Scalar, second: Scalar|
        #![trigger call_ensures(arithmetic, (operation,), first), call_ensures(arithmetic, (operation,), second)]
        call_ensures(arithmetic, (operation,), first) && call_ensures(
            arithmetic,
            (operation,),
            second,
        ) ==> first == second
}

/// Under an arithmetic that returns one result only for each operation, a
/// formula has one value only.
pub proof fn lemma_value_is_unique<A: Fn(Operation) -> Scalar>(
    arithmetic: A,
    formula: Formula,
    first: Scalar,
    second: Scalar,
)
    requires
        deterministic(arithmetic),
        evaluates(arithmetic, formula, first),
        evaluates(arithmetic, formula, second),
    ensures
        first == second,
    decreases formula,
{
    match formula {
        Formula::Value(_) => {},
        Formula::Integer(_) => {},
        Formula::Seconds(_) => {},
        Formula::Binary(op, left, right) => {
            let (x1, y1) = choose|x: Scalar, y: Scalar|
                operands(x, y) && evaluates(arithmetic, *left, x) && evaluates(
                    arithmetic,
                    *right,
                    y,
                ) && call_ensures(arithmetic, (Operation::Binary(op, x, y),), first);
            let (x2, y2) = choose|x: Scalar, y: Scalar|
                operands(x, y) && evaluates(arithmetic, *left, x) && evaluates(
                    arithmetic,
                    *right,
                    y,
                ) && call_ensures(arithmetic, (Operation::Binary(op, x, y),), second);
            lemma_value_is_unique(arithmetic, *left, x1, x2);
            lemma_value_is_unique(arithmetic, *right, y1, y2);
        },
        Formula::Unary(op, inner) => {
            let x1 = choose|x: Scalar|
                operand(x) && evaluates(arithmetic, *inner, x) && call_ensures(
                    arithmetic,
                    (Operation::Unary(op, x),),
                    first,
                );
            let x2 = choose|x: Scalar|
                operand(x) && evaluates(arithmetic, *inner, x) && call_ensures(
                    arithmetic,
                    (Operation::Unary(op, x),),
                    second,
                );
            lemma_value_is_unique(arithmetic, *inner, x1, x2);
        },
        Formula::Negated(inner) => {
            let x1 = choose|x: Scalar|
                operand(x) && evaluates(arithmetic, *inner, x) && first == x.spec_negated();
            let x2 = choose|x: Scalar|
                operand(x) && evaluates(arithmetic, *inner, x) && second == x.spec_negated();
            lemma_value_is_unique(arithmetic, *inner, x1, x2);
        },
        Formula::AtMost(inner, limit) => {
            let x1 = choose|x: Scalar|
                operand(x) && evaluates(arithmetic, *inner, x) && first == x.spec_min(limit);
            let x2 = choose|x: Scalar|
                operand(x) && evaluates(arithmetic, *inner, x) && second == x.spec_min(limit);
            lemma_value_is_unique(arithmetic, *inner, x1, x2);
        },
    }
}

/// The formula of a number that is given.
pub open spec fn value(scalar: Scalar) -> Formula {
    Formula::Value(scalar)
}

/// The formula of the number with the given bit pattern.
pub open spec fn constant(bits: u32) -> Formula {
    Formula::Value(Scalar::from_bits(bits))
}

/// The formula of the number nearest to an integer.
pub open spec fn integer(n: u64) -> Formula {
    Formula::Integer(n)
}

/// The formula of a span of time in seconds.
pub open spec fn seconds(span: TimeSpan) -> Formula {
    Formula::Seconds(span)
}

/// The formula `left + right`.
pub open spec fn sum(left: Formula, right: Formula) -> Formula {
    Formula::Binary(Binary::Sum, Box::new(left), Box::new(right))
}

/// The formula `left - right`.
pub open spec fn difference(left: Formula, right: Formula) -> Formula {
    Formula::Binary(Binary::Difference, Box::new(left), Box::new(right))
}

/// The formula `left * right`.
pub open spec fn product(left: Formula, right: Formula) -> Formula {
    Formula::Binary(Binary::Product, Box::new(left), Box::new(right))
}

/// The formula `left / right`.
pub open spec fn quotient(left: Formula, right: Formula) -> Formula {
    Formula::Binary(Binary::Quotient, Box::new(left), Box::new(right))
}

/// The formula `left % right`.
pub open spec fn remainder(left: Formula, right: Formula) -> Formula {
    Formula::Binary(Binary::Remainder, Box::new(left), Box::new(right))
}

/// The formula of the exponential of a number.
pub open spec fn exp(inner: Formula) -> Formula {
    Formula::Unary(Unary::Exp, Box::new(inner))
}

/// The formula of the sine of a number.
pub open spec fn sine(inner: Formula) -> Formula {
    Formula::Unary(Unary::Sine, Box::new(inner))
}

/// The formula of the logarithm to base two of a number.
pub open spec fn log2(inner: Formula) -> Formula {
    Formula::Unary(Unary::Log2, Box::new(inner))
}

/// The formula of the square root of a number.
pub open spec fn square_root(inner: Formula) -> Formula {
    Formula::Unary(Unary::SquareRoot, Box::new(inner))
}

/// The formula of a number with its sign changed.
pub open spec fn negated(inner: Formula) -> Formula {
    Formula::Negated(Box::new(inner))
}

/// The formula of the smaller of a number and a limit.
pub open spec fn at_most(inner: Formula, limit: Scalar) -> Formula {
    Formula::AtMost(Box::new(inner), limit)
}

/// A number together with the formula it is a value of.
pub(crate) struct Term {
    pub value: Scalar,
    pub formula: Ghost<Formula>,
}

impl Term {
    /// Whether the number is a value that the arithmetic gives to the
    /// formula.
    pub(crate) open spec fn holds<A: Fn(Operation) -> Scalar>(self, arithmetic: A) -> bool {
        evaluates(arithmetic, self.formula@, self.value)
    }

    /// A number that is given.
    pub(crate) fn of(scalar: Scalar) -> (term: Term)
        ensures
            term.value == scalar,
            term.formula@ == value(scalar),
    {
        Term { value: scalar, formula: Ghost(Formula::Value(scalar)) }
    }

    /// The number with the given bit pattern.
    pub(crate) fn constant(bits: u32) -> (term: Term)
        ensures
            term.value == Scalar::from_bits(bits),
            term.formula@ == constant(bits),
    {
        Term {
            value: Scalar::from_bits(bits),
            formula: Ghost(Formula::Value(Scalar::from_bits(bits))),
        }
    }

    /// A value that was worked out before, with the formula it is a value
    /// of.
    pub(crate) fn known<A: Fn(Operation) -> Scalar>(
        scalar: Scalar,
        Ghost(formula): Ghost<Formula>,
        arithmetic: &A,
    ) -> (term: Term)
        requires
            evaluates(*arithmetic, formula, scalar),
        ensures
            term.value == scalar,
            term.formula@ == formula,
            term.holds(*arithmetic),
    {
        Term { value: scalar, formula: Ghost(formula) }
    }

    /// The number nearest to an integer.
    pub(crate) fn integer<A: Fn(Operation) -> Scalar>(n: u64, arithmetic: &A) -> (term: Term)
        requires
            total(*arithmetic),
        ensures
            term.holds(*arithmetic),
            term.formula@ == integer(n),
    {
        let result: Scalar = arithmetic(Operation::Integer(n));
        Term { value: result, formula: Ghost(Formula::Integer(n)) }
    }

    /// A span of time in seconds.
    pub(crate) fn seconds<A: Fn(Operation) -> Scalar>(span: TimeSpan, arithmetic: &A) -> (term: Term)
        requires
            total(*arithmetic),
        ensures
            term.holds(*arithmetic),
            term.formula@ == seconds(span),
    {
        let result: Scalar = arithmetic(Operation::Seconds(span));
        Term { value: result, formula: Ghost(Formula::Seconds(span)) }
    }

    /// The result of an operation on this number and another.
    pub(crate) fn binary<A: Fn(Operation) -> Scalar>(&self, op: Binary, other: &Term, arithmetic: &A) -> (term:
        Term)
        requires
            total(*arithmetic),
            self.holds(*arithmetic),
            other.holds(*arithmetic),
        ensures
            term.holds(*arithmetic),
            term.formula@ == Formula::Binary(op, Box::new(self.formula@), Box::new(other.formula@)),
    {
        let result: Scalar = arithmetic(Operation::Binary(op, self.value, other.value));
        proof {
            assert(operands(self.value, other.value));
        }
        Term {
            value: result,
            formula: Ghost(
                Formula::Binary(op, Box::new(self.formula@), Box::new(other.formula@)),
            ),
        }
    }

    /// The result of an operation on this number.
    pub(crate) fn unary<A: Fn(Operation) -> Scalar>(&self, op: Unary, arithmetic: &A) -> (term: Term)
        requires
            total(*arithmetic),
            self.holds(*arithmetic),
        ensures
            term.holds(*arithmetic),
            term.formula@ == Formula::Unary(op, Box::new(self.formula@)),
    {
        let result: Scalar = arithmetic(Operation::Unary(op, self.value));
        proof {
            assert(operand(self.value));
        }
        Term { value: result, formula: Ghost(Formula::Unary(op, Box::new(self.formula@))) }
    }

    /// This number plus another.
    pub(crate) fn plus<A: Fn(Operation) -> Scalar>(&self, other: &Term, arithmetic: &A) -> (term: Term)
        requires
            total(*arithmetic),
            self.holds(*arithmetic),
            other.holds(*arithmetic),
        ensures
            term.holds(*arithmetic),
            term.formula@ == sum(self.formula@, other.formula@),
    {
        self.binary(Binary::Sum, other, arithmetic)
    }

    /// This number minus another.
    pub(crate) fn minus<A: Fn(Operation) -> Scalar>(&self, other: &Term, arithmetic: &A) -> (term: Term)
        requires
            total(*arithmetic),
            self.holds(*arithmetic),
            other.holds(*arithmetic),
        ensures
            term.holds(*arithmetic),
            term.formula@ == difference(self.formula@, other.formula@),
    {
        self.binary(Binary::Difference, other, arithmetic)
    }

    /// This number times another.
    pub(crate) fn times<A: Fn(Operation) -> Scalar>(&self, other: &Term, arithmetic: &A) -> (term: Term)
        requires
            total(*arithmetic),
            self.holds(*arithmetic),
            other.holds(*arithmetic),
        ensures
            term.holds(*arithmetic),
            term.formula@ == product(self.formula@, other.formula@),
    {
        self.binary(Binary::Product, other, arithmetic)
    }

    /// This number divided by another.
    pub(crate) fn over<A: Fn(Operation) -> Scalar>(&self, other: &Term, arithmetic: &A) -> (term: Term)
        requires
            total(*arithmetic),
            self.holds(*arithmetic),
            other.holds(*arithmetic),
        ensures
            term.holds(*arithmetic),
            term.formula@ == quotient(self.formula@, other.formula@),
    {
        self.binary(Binary::Quotient, other, arithmetic)
    }

    /// The remainder of this number divided by another.
    pub(crate) fn modulo<A: Fn(Operation) -> Scalar>(&self, other: &Term, arithmetic: &A) -> (term: Term)
        requires
            total(*arithmetic),
            self.holds(*arithmetic),
            other.holds(*arithmetic),
        ensures
            term.holds(*arithmetic),
            term.formula@ == remainder(self.formula@, other.formula@),
    {
        self.binary(Binary::Remainder, other, arithmetic)
    }

    /// This number with its sign changed.
    pub(crate) fn negated<A: Fn(Operation) -> Scalar>(&self, arithmetic: &A) -> (term: Term)
        requires
            self.holds(*arithmetic),
        ensures
            term.holds(*arithmetic),
            term.formula@ == negated(self.formula@),
            term.value == self.value.spec_negated(),
    {
        proof {
            assert(operand(self.value));
        }
        Term { value: self.value.negated(), formula: Ghost(Formula::Negated(Box::new(self.formula@))) }
    }

    /// The smaller of this number and a limit.
    pub(crate) fn at_most<A: Fn(Operation) -> Scalar>(&self, limit: Scalar, arithmetic: &A) -> (term: Term)
        requires
            self.holds(*arithmetic),
        ensures
            term.holds(*arithmetic),
            term.formula@ == at_most(self.formula@, limit),
            term.value == self.value.spec_min(limit),
    {
        proof {
            assert(operand(self.value));
        }
        Term {
            value: self.value.min(limit),
            formula: Ghost(Formula::AtMost(Box::new(self.formula@), limit)),
        }
    }
}

} // verus!
