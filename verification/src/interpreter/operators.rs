//! The operators that take two values: what each gives on a pair.

use crate::error::{ConstantError, ConstantErrorView};
use crate::lexer::token::{
    add_spec, before_spec, div_spec, equals_spec, invalid, mul_spec, outcome_view, rem_spec,
    sub_spec,
};
use crate::lexer::{Literal, LiteralView, Outcome, OutcomeView};
use crate::parser::DoubleOpType;
use vstd::prelude::*;

verus! {

/// A truth value as the result of an operator.
pub open spec fn verdict(b: bool) -> Result<OutcomeView, ConstantErrorView> {
    Ok(OutcomeView::Value(LiteralView::Bool(b)))
}

/// What `left op right` gives, for every operator but `Swap`, which gives no
/// value of its own (here: the left operand).
///
/// The comparisons by order are refused on values of two kinds; `==` and
/// `!=` are not, and find such values unequal. `>=` and `<=` hold where `>`
/// or `<` holds or the two are equal.
pub open spec fn apply_spec(op: DoubleOpType, left: LiteralView, right: LiteralView) -> Result<
    OutcomeView,
    ConstantErrorView,
> {
    match op {
        DoubleOpType::Add => add_spec(left, right),
        DoubleOpType::Sub => sub_spec(left, right),
        DoubleOpType::Mul => mul_spec(left, right),
        DoubleOpType::Div => div_spec(left, right),
        DoubleOpType::Mod => rem_spec(left, right),
        DoubleOpType::Swap => Ok(OutcomeView::Value(left)),
        DoubleOpType::GT => match before_spec(right, left) {
            Some(after) => verdict(after),
            None => invalid("Can only order values of the same kind"),
        },
        DoubleOpType::GTEq => match before_spec(right, left) {
            Some(after) => verdict(after || equals_spec(left, right)),
            None => invalid("Can only order values of the same kind"),
        },
        DoubleOpType::LT => match before_spec(left, right) {
            Some(before) => verdict(before),
            None => invalid("Can only order values of the same kind"),
        },
        DoubleOpType::LTEq => match before_spec(left, right) {
            Some(before) => verdict(before || equals_spec(left, right)),
            None => invalid("Can only order values of the same kind"),
        },
        DoubleOpType::Eq => verdict(equals_spec(left, right)),
        DoubleOpType::NotEq => verdict(!equals_spec(left, right)),
        DoubleOpType::And => match (left, right) {
            (LiteralView::Bool(a), LiteralView::Bool(b)) => verdict(a && b),
            _ => invalid("Logical operations can only be performed on bools"),
        },
        DoubleOpType::Or => match (left, right) {
            (LiteralView::Bool(a), LiteralView::Bool(b)) => verdict(a || b),
            _ => invalid("Logical operations can only be performed on bools"),
        },
    }
}

fn truth(b: bool) -> (r: Result<Outcome, ConstantError>)
    ensures
        outcome_view(r) == verdict(b),
{
    Ok(Outcome::Value(Literal::Bool(b)))
}

fn unordered() -> (r: Result<Outcome, ConstantError>)
    ensures
        outcome_view(r) == invalid("Can only order values of the same kind"),
{
    Err(ConstantError::InvalidOperation(String::from_str("Can only order values of the same kind")))
}

fn illogical() -> (r: Result<Outcome, ConstantError>)
    ensures
        outcome_view(r) == invalid("Logical operations can only be performed on bools"),
{
    Err(
        ConstantError::InvalidOperation(
            String::from_str("Logical operations can only be performed on bools"),
        ),
    )
}

/// What `left op right` gives.
pub fn apply(op: DoubleOpType, left: Literal, right: Literal) -> (r: Result<Outcome, ConstantError>)
    ensures
        outcome_view(r) == apply_spec(op, left@, right@),
{
    match op {
        DoubleOpType::Add => left.add(right),
        DoubleOpType::Sub => left.sub(right),
        DoubleOpType::Mul => left.mul(right),
        DoubleOpType::Div => left.div(right),
        DoubleOpType::Mod => left.rem(right),
        DoubleOpType::Swap => Ok(Outcome::Value(left)),
        DoubleOpType::GT => match right.before(&left) {
            Some(after) => truth(after),
            None => unordered(),
        },
        DoubleOpType::GTEq => match right.before(&left) {
            Some(after) => truth(after || left.equals(&right)),
            None => unordered(),
        },
        DoubleOpType::LT => match left.before(&right) {
            Some(before) => truth(before),
            None => unordered(),
        },
        DoubleOpType::LTEq => match left.before(&right) {
            Some(before) => truth(before || left.equals(&right)),
            None => unordered(),
        },
        DoubleOpType::Eq => truth(left.equals(&right)),
        DoubleOpType::NotEq => truth(!left.equals(&right)),
        DoubleOpType::And => match (left, right) {
            (Literal::Bool(a), Literal::Bool(b)) => truth(a && b),
            _ => illogical(),
        },
        DoubleOpType::Or => match (left, right) {
            (Literal::Bool(a), Literal::Bool(b)) => truth(a || b),
            _ => illogical(),
        },
    }
}

} // verus!
