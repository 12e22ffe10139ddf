use vstd::prelude::*;
use crate::ast::{Ast, Expression};
use crate::object::{Address, Key, Object, Val};
use crate::token::Token;

verus! {

/// Why a token sequence could not be parsed. The first failure ends the parse.
#[derive(Debug)]
pub enum ParseError {
    /// The tokens ran out in the middle of a construct.
    RanOutOfTokens,
    /// A token of the named kind was required.
    ExpectedButFound(String, Token),
    /// An expression of the named kind was required (a callee or an assignment target).
    ExpectedButFoundExpression(String, Expression),
    /// The first token was required and the second one was found.
    ExpectedTokenButFound(Token, Token),
    /// No expression starts with this token.
    UnexpectedTokenFound(Token),
}

/// The mathematical form of a parse error.
pub enum PErr {
    RanOutOfTokens,
    ExpectedButFound(Seq<char>, Token),
    ExpectedButFoundExpression(Seq<char>, Ast),
    ExpectedTokenButFound(Token, Token),
    UnexpectedTokenFound(Token),
}

impl ParseError {
    pub open spec fn view(&self) -> PErr {
        match self {
            ParseError::RanOutOfTokens => PErr::RanOutOfTokens,
            ParseError::ExpectedButFound(s, t) => PErr::ExpectedButFound(s@, *t),
            ParseError::ExpectedButFoundExpression(s, e) => PErr::ExpectedButFoundExpression(
                s@,
                e@,
            ),
            ParseError::ExpectedTokenButFound(a, b) => PErr::ExpectedTokenButFound(*a, *b),
            ParseError::UnexpectedTokenFound(t) => PErr::UnexpectedTokenFound(*t),
        }
    }
}

/// Why an evaluation failed. The first failure ends the evaluation of the
/// enclosing top-level statement.
#[derive(Debug)]
pub enum EvalError {
    /// A `let` declared the first type and the value is of the second.
    InvalidType(Token, Token),
    /// A value of the given type was required.
    InvalidTypeButFound(Token, Object),
    UnknownIdentifier(String),
    /// A heap slot that holds nothing.
    UnknownAddress(usize),
    /// A reference chain that comes back to itself.
    CyclicReference(Address),
    /// The literal text could not be read as the named type.
    CannotConvertInto(String, String),
    IllegalPrefixOperation(Token, Object),
    /// The operator has no meaning for a left operand of this type.
    CannotApplyOn(Token, Object),
    /// The operator takes no right operand of this type after a left one of the
    /// first type.
    IncompatibleTypes(Token, Object, Token),
    /// The new value and the old one are of different types.
    CannotAssignDifferentType(Object, Object),
    /// Only a binding can be assigned to.
    CannotAssignTo(Object),
    CannotArrayAccess(Object),
    CannotAccessArrayWith(Object),
    IndexOutOfRange(i128),
    CannotCall(Object),
    /// The function takes the first number of arguments and got the second.
    InvalidAmountOfArguments(usize, usize),
    ExpectedTypeButFound(Token, Object),
    /// An integer operation whose result does not fit in 128 bits, or a
    /// division by zero.
    ArithmeticFailure(Token),
    /// The evaluation used up its budget of loop iterations and calls.
    StepLimitReached,
}

/// The mathematical form of an evaluation error.
pub enum EErr {
    InvalidType(Token, Token),
    InvalidTypeButFound(Token, Val),
    UnknownIdentifier(Seq<char>),
    UnknownAddress(int),
    CyclicReference(Key),
    CannotConvertInto(Seq<char>, Seq<char>),
    IllegalPrefixOperation(Token, Val),
    CannotApplyOn(Token, Val),
    IncompatibleTypes(Token, Val, Token),
    CannotAssignDifferentType(Val, Val),
    CannotAssignTo(Val),
    CannotArrayAccess(Val),
    CannotAccessArrayWith(Val),
    IndexOutOfRange(i128),
    CannotCall(Val),
    InvalidAmountOfArguments(int, int),
    ExpectedTypeButFound(Token, Val),
    ArithmeticFailure(Token),
    StepLimitReached,
}

impl EvalError {
    pub open spec fn view(&self) -> EErr {
        match self {
            EvalError::InvalidType(a, b) => EErr::InvalidType(*a, *b),
            EvalError::InvalidTypeButFound(t, o) => EErr::InvalidTypeButFound(*t, o@),
            EvalError::UnknownIdentifier(s) => EErr::UnknownIdentifier(s@),
            EvalError::UnknownAddress(i) => EErr::UnknownAddress(*i as int),
            EvalError::CyclicReference(a) => EErr::CyclicReference(a@),
            EvalError::CannotConvertInto(a, b) => EErr::CannotConvertInto(a@, b@),
            EvalError::IllegalPrefixOperation(t, o) => EErr::IllegalPrefixOperation(*t, o@),
            EvalError::CannotApplyOn(t, o) => EErr::CannotApplyOn(*t, o@),
            EvalError::IncompatibleTypes(a, o, b) => EErr::IncompatibleTypes(*a, o@, *b),
            EvalError::CannotAssignDifferentType(a, b) => EErr::CannotAssignDifferentType(a@, b@),
            EvalError::CannotAssignTo(o) => EErr::CannotAssignTo(o@),
            EvalError::CannotArrayAccess(o) => EErr::CannotArrayAccess(o@),
            EvalError::CannotAccessArrayWith(o) => EErr::CannotAccessArrayWith(o@),
            EvalError::IndexOutOfRange(i) => EErr::IndexOutOfRange(*i),
            EvalError::CannotCall(o) => EErr::CannotCall(o@),
            EvalError::InvalidAmountOfArguments(a, b) => EErr::InvalidAmountOfArguments(
                *a as int,
                *b as int,
            ),
            EvalError::ExpectedTypeButFound(t, o) => EErr::ExpectedTypeButFound(*t, o@),
            EvalError::ArithmeticFailure(t) => EErr::ArithmeticFailure(*t),
            EvalError::StepLimitReached => EErr::StepLimitReached,
        }
    }
}

} // verus!
