use vstd::prelude::*;
use crate::error::{EErr, EvalError};
use crate::object::{Object, Val};
use crate::token::Token;

verus! {

/// Arithmetic on IEEE-754 binary64 numbers, each given as its 64 bits. The
/// evaluator hands every floating-point step to an implementation of this trait.
pub trait FloatArith {
    /// Reads a float literal; `None` where the text is no number.
    fn parse(text: &String) -> Option<u64>;

    /// The float nearest to the integer.
    fn from_integer(v: i128) -> u64;

    fn negate(a: u64) -> u64;

    fn add(a: u64, b: u64) -> u64;

    fn sub(a: u64, b: u64) -> u64;

    fn mul(a: u64, b: u64) -> u64;

    fn div(a: u64, b: u64) -> u64;

    fn rem(a: u64, b: u64) -> u64;

    fn equal(a: u64, b: u64) -> bool;

    fn less(a: u64, b: u64) -> bool;

    fn greater(a: u64, b: u64) -> bool;

    fn less_equal(a: u64, b: u64) -> bool;

    fn greater_equal(a: u64, b: u64) -> bool;
}

pub open spec fn is_arith(op: Token) -> bool {
    op is Add || op is Subtract || op is Multiply || op is Divide || op is Modular
}

pub open spec fn is_comparison(op: Token) -> bool {
    op is LessThan || op is GreaterThan || op is LessThanEqual || op is GreaterThanEqual
}

pub open spec fn is_equality(op: Token) -> bool {
    op is Equal || op is NotEqual
}

pub open spec fn is_logic(op: Token) -> bool {
    op is And || op is Or
}

/// Which operand types `op` has an implementation for, and whether it mixes
/// integers with floats.
pub open spec fn has_int_impl(op: Token) -> bool {
    is_arith(op) || is_comparison(op) || is_equality(op)
}

pub open spec fn has_float_impl(op: Token) -> bool {
    is_arith(op) || is_comparison(op) || is_equality(op)
}

pub open spec fn has_string_impl(op: Token) -> bool {
    op is Add || is_equality(op)
}

pub open spec fn has_bool_impl(op: Token) -> bool {
    is_logic(op) || is_equality(op)
}

pub open spec fn is_mixable(op: Token) -> bool {
    is_arith(op)
}

/// The integer operation `op`: checked arithmetic, or a comparison.
pub open spec fn int_apply(op: Token, a: i128, b: i128) -> Result<Val, EErr> {
    let checked = if op is Add {
        a.checked_add(b)
    } else if op is Subtract {
        a.checked_sub(b)
    } else if op is Multiply {
        a.checked_mul(b)
    } else if op is Divide {
        a.checked_div(b)
    } else {
        a.checked_rem(b)
    };
    if is_arith(op) {
        match checked {
            Some(v) => Ok(Val::Integer(v)),
            None => Err(EErr::ArithmeticFailure(op)),
        }
    } else {
        Ok(
            Val::Boolean(
                if op is Equal {
                    a == b
                } else if op is NotEqual {
                    a != b
                } else if op is LessThan {
                    a < b
                } else if op is GreaterThan {
                    a > b
                } else if op is LessThanEqual {
                    a <= b
                } else {
                    a >= b
                },
            ),
        )
    }
}

pub open spec fn string_apply(op: Token, a: Seq<char>, b: Seq<char>) -> Val {
    if op is Add {
        Val::Str(a + b)
    } else if op is Equal {
        Val::Boolean(a == b)
    } else {
        Val::Boolean(a != b)
    }
}

pub open spec fn bool_apply(op: Token, a: bool, b: bool) -> Val {
    Val::Boolean(
        if op is And {
            a && b
        } else if op is Or {
            a || b
        } else if op is Equal {
            a == b
        } else {
            a != b
        },
    )
}

/// Whether the infix operation runs on floats (both operands floats, or one
/// promoted from an integer).
pub open spec fn is_float_case(op: Token, l: Val, r: Val) -> bool {
    ||| l is Float && has_float_impl(op) && (r is Float || (r is Integer && is_mixable(op)))
    ||| l is Integer && has_int_impl(op) && r is Float && is_mixable(op)
}

/// The outcome of `l op r` where no float operation is involved.
pub open spec fn infix_value(op: Token, l: Val, r: Val) -> Result<Val, EErr> {
    match l {
        Val::Integer(a) => if !has_int_impl(op) {
            Err(EErr::CannotApplyOn(op, l))
        } else {
            match r {
                Val::Integer(b) => int_apply(op, a, b),
                _ => Err(EErr::IncompatibleTypes(Token::IntegerType, r, op)),
            }
        },
        Val::Float(_) => if !has_float_impl(op) {
            Err(EErr::CannotApplyOn(op, l))
        } else {
            Err(EErr::IncompatibleTypes(Token::FloatType, r, op))
        },
        Val::Str(a) => if !has_string_impl(op) {
            Err(EErr::CannotApplyOn(op, l))
        } else {
            match r {
                Val::Str(b) => Ok(string_apply(op, a, b)),
                _ => Err(EErr::IncompatibleTypes(Token::StringType, r, op)),
            }
        },
        Val::Boolean(a) => if !has_bool_impl(op) {
            Err(EErr::CannotApplyOn(op, l))
        } else {
            match r {
                Val::Boolean(b) => Ok(bool_apply(op, a, b)),
                _ => Err(EErr::IncompatibleTypes(Token::BooleanType, r, op)),
            }
        },
        _ => Err(EErr::CannotApplyOn(op, l)),
    }
}

/// What `l op r` may give: a float for float arithmetic, a boolean for a float
/// comparison, and otherwise exactly `infix_value`.
pub open spec fn infix_outcome(op: Token, l: Val, r: Val, out: Result<Val, EErr>) -> bool {
    if is_float_case(op, l, r) {
        out matches Ok(v) && (if is_arith(op) {
            v is Float
        } else {
            v is Boolean
        })
    } else {
        out == infix_value(op, l, r)
    }
}

/// What `op v` may give.
pub open spec fn prefix_outcome(op: Token, v: Val, out: Result<Val, EErr>) -> bool {
    if op is Subtract && v is Float {
        out matches Ok(x) && x is Float
    } else {
        out == prefix_value(op, v)
    }
}

/// The outcome of `op v` where `v` is no float.
pub open spec fn prefix_value(op: Token, v: Val) -> Result<Val, EErr> {
    match v {
        Val::Integer(a) => if op is Subtract {
            match (0i128).checked_sub(a) {
                Some(n) => Ok(Val::Integer(n)),
                None => Err(EErr::ArithmeticFailure(op)),
            }
        } else {
            Err(EErr::IllegalPrefixOperation(op, v))
        },
        Val::Boolean(b) => if op is Invert {
            Ok(Val::Boolean(!b))
        } else {
            Err(EErr::IllegalPrefixOperation(op, v))
        },
        _ => Err(EErr::IllegalPrefixOperation(op, v)),
    }
}

/// The outcome of an operator function, in the form the specification speaks of.
pub open spec fn obj_outcome(r: Result<Object, EvalError>) -> Result<Val, EErr> {
    match r {
        Ok(o) => Ok(o@),
        Err(e) => Err(e@),
    }
}

/// Which implementations `operator` has: for integers, floats, strings and
/// booleans, and whether it promotes an integer next to a float.
pub fn get_apply_functions(operator: &Token) -> (r: (bool, bool, bool, bool, bool))
    ensures
        r == (
            has_int_impl(*operator),
            has_float_impl(*operator),
            has_string_impl(*operator),
            has_bool_impl(*operator),
            is_mixable(*operator),
        ),
{
    match operator {
        Token::Add => (true, true, true, false, true),
        Token::Subtract | Token::Multiply | Token::Divide | Token::Modular => (
            true,
            true,
            false,
            false,
            true,
        ),
        Token::And | Token::Or => (false, false, false, true, false),
        Token::Equal | Token::NotEqual => (true, true, true, true, false),
        Token::GreaterThan | Token::LessThan | Token::GreaterThanEqual | Token::LessThanEqual => (
            true,
            true,
            false,
            false,
            false,
        ),
        _ => (false, false, false, false, false),
    }
}

fn apply_integer(op: &Token, a: i128, b: i128) -> (r: Result<Object, EvalError>)
    requires
        has_int_impl(*op),
    ensures
        obj_outcome(r) == int_apply(*op, a, b),
{
    let checked = match op {
        Token::Add => a.checked_add(b),
        Token::Subtract => a.checked_sub(b),
        Token::Multiply => a.checked_mul(b),
        Token::Divide => a.checked_div(b),
        Token::Modular => a.checked_rem(b),
        Token::Equal => return Ok(Object::Boolean(a == b)),
        Token::NotEqual => return Ok(Object::Boolean(a != b)),
        Token::LessThan => return Ok(Object::Boolean(a < b)),
        Token::GreaterThan => return Ok(Object::Boolean(a > b)),
        Token::LessThanEqual => return Ok(Object::Boolean(a <= b)),
        _ => return Ok(Object::Boolean(a >= b)),
    };
    match checked {
        Some(v) => Ok(Object::Integer(v)),
        None => Err(EvalError::ArithmeticFailure(op.duplicate())),
    }
}

fn apply_float<F: FloatArith>(op: &Token, a: u64, b: u64) -> (r: Object)
    requires
        has_float_impl(*op),
    ensures
        if is_arith(*op) {
            r is Float
        } else {
            r is Boolean
        },
{
    match op {
        Token::Add => Object::Float(F::add(a, b)),
        Token::Subtract => Object::Float(F::sub(a, b)),
        Token::Multiply => Object::Float(F::mul(a, b)),
        Token::Divide => Object::Float(F::div(a, b)),
        Token::Modular => Object::Float(F::rem(a, b)),
        Token::Equal => Object::Boolean(F::equal(a, b)),
        Token::NotEqual => Object::Boolean(!F::equal(a, b)),
        Token::LessThan => Object::Boolean(F::less(a, b)),
        Token::GreaterThan => Object::Boolean(F::greater(a, b)),
        Token::LessThanEqual => Object::Boolean(F::less_equal(a, b)),
        _ => Object::Boolean(F::greater_equal(a, b)),
    }
}

fn apply_string(op: &Token, a: String, b: String) -> (r: Object)
    requires
        has_string_impl(*op),
    ensures
        r@ == string_apply(*op, a@, b@),
{
    match op {
        Token::Add => Object::String(a.concat(b.as_str())),
        Token::Equal => Object::Boolean(a == b),
        _ => Object::Boolean(!(a == b)),
    }
}

fn apply_boolean(op: &Token, a: bool, b: bool) -> (r: Object)
    requires
        has_bool_impl(*op),
    ensures
        r@ == bool_apply(*op, a, b),
{
    match op {
        Token::And => Object::Boolean(a && b),
        Token::Or => Object::Boolean(a || b),
        Token::Equal => Object::Boolean(a == b),
        _ => Object::Boolean(a != b),
    }
}

/// Applies the infix operator `operation`, chosen by the left operand's type:
/// operands of the same type are combined directly; an integer next to a float
/// is promoted where the operator mixes them; any other pair is an error.
pub fn evaluate_infix_expression<F: FloatArith>(
    left_obj: Object,
    right_obj: Object,
    operation: &Token,
) -> (r: Result<Object, EvalError>)
    ensures
        infix_outcome(*operation, left_obj@, right_obj@, obj_outcome(r)),
{
    let (integer_op, float_op, string_op, bool_op, mixable) = get_apply_functions(operation);
    match left_obj {
        Object::Integer(a) => {
            if !integer_op {
                return Err(EvalError::CannotApplyOn(operation.duplicate(), Object::Integer(a)));
            }
            match right_obj {
                Object::Integer(b) => apply_integer(operation, a, b),
                Object::Float(b) => {
                    if mixable {
                        Ok(apply_float::<F>(operation, F::from_integer(a), b))
                    } else {
                        Err(
                            EvalError::IncompatibleTypes(
                                Token::IntegerType,
                                Object::Float(b),
                                operation.duplicate(),
                            ),
                        )
                    }
                },
                other => Err(
                    EvalError::IncompatibleTypes(Token::IntegerType, other, operation.duplicate()),
                ),
            }
        },
        Object::Float(a) => {
            if !float_op {
                return Err(EvalError::CannotApplyOn(operation.duplicate(), Object::Float(a)));
            }
            match right_obj {
                Object::Float(b) => Ok(apply_float::<F>(operation, a, b)),
                Object::Integer(b) => {
                    if mixable {
                        Ok(apply_float::<F>(operation, a, F::from_integer(b)))
                    } else {
                        Err(
                            EvalError::IncompatibleTypes(
                                Token::FloatType,
                                Object::Integer(b),
                                operation.duplicate(),
                            ),
                        )
                    }
                },
                other => Err(
                    EvalError::IncompatibleTypes(Token::FloatType, other, operation.duplicate()),
                ),
            }
        },
        Object::String(a) => {
            if !string_op {
                return Err(EvalError::CannotApplyOn(operation.duplicate(), Object::String(a)));
            }
            match right_obj {
                Object::String(b) => Ok(apply_string(operation, a, b)),
                other => Err(
                    EvalError::IncompatibleTypes(Token::StringType, other, operation.duplicate()),
                ),
            }
        },
        Object::Boolean(a) => {
            if !bool_op {
                return Err(EvalError::CannotApplyOn(operation.duplicate(), Object::Boolean(a)));
            }
            match right_obj {
                Object::Boolean(b) => Ok(apply_boolean(operation, a, b)),
                other => Err(
                    EvalError::IncompatibleTypes(Token::BooleanType, other, operation.duplicate()),
                ),
            }
        },
        other => Err(EvalError::CannotApplyOn(operation.duplicate(), other)),
    }
}

/// Applies the prefix operator `prefix`: `-` negates an integer or a float,
/// `!` negates a boolean.
pub fn evaluate_prefix_expression<F: FloatArith>(prefix: &Token, object: Object) -> (r: Result<
    Object,
    EvalError,
>)
    ensures
        prefix_outcome(*prefix, object@, obj_outcome(r)),
{
    let is_minus = prefix.equal_variant(&Token::Subtract);
    let is_not = prefix.equal_variant(&Token::Invert);
    match object {
        Object::Integer(v) => {
            if is_minus {
                match (0i128).checked_sub(v) {
                    Some(n) => Ok(Object::Integer(n)),
                    None => Err(EvalError::ArithmeticFailure(prefix.duplicate())),
                }
            } else {
                Err(EvalError::IllegalPrefixOperation(prefix.duplicate(), Object::Integer(v)))
            }
        },
        Object::Float(v) => {
            if is_minus {
                Ok(Object::Float(F::negate(v)))
            } else {
                Err(EvalError::IllegalPrefixOperation(prefix.duplicate(), Object::Float(v)))
            }
        },
        Object::Boolean(b) => {
            if is_not {
                Ok(Object::Boolean(!b))
            } else {
                Err(EvalError::IllegalPrefixOperation(prefix.duplicate(), Object::Boolean(b)))
            }
        },
        other => Err(EvalError::IllegalPrefixOperation(prefix.duplicate(), other)),
    }
}

} // verus!
