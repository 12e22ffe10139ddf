//! The grammar of the language, as functions from the remaining tokens to
//! the construct read and the tokens that follow it.
use vstd::prelude::*;
use crate::ast::{Ast, Stm};
use crate::error::PErr;
use crate::token::{precedence_of, token_view, Precedences, Token};

verus! {

/// A construct read from the front of a token sequence, and what is left.
pub type Parsed<A> = Result<(A, Seq<Token>), PErr>;

pub open spec fn is_type_token(t: Token) -> bool {
    t is IntegerType || t is FloatType || t is StringType || t is BooleanType
}

pub open spec fn is_return_type_token(t: Token) -> bool {
    is_type_token(t) || t is NullType
}

pub open spec fn is_infix_operator(t: Token) -> bool {
    t is Add || t is Subtract || t is Multiply || t is Divide || t is Modular || t is Equal
        || t is NotEqual || t is LessThan || t is GreaterThan || t is LessThanEqual
        || t is GreaterThanEqual || t is Or || t is And
}

/// Tokens that continue an expression to their left.
pub open spec fn continues_expression(t: Token) -> bool {
    is_infix_operator(t) || t is LParent || t is Assign || t is LBracket
}

/// Expressions that may stand left of `=`.
pub open spec fn is_assignable(e: Ast) -> bool {
    e is Identifier || e is Access
}

pub open spec fn starts_with(ts: Seq<Token>, t: Token) -> bool {
    ts.len() > 0 && ts[0] == t
}

/// Consumes the token `t`, which must come next.
pub open spec fn spec_expect(ts: Seq<Token>, t: Token) -> Result<Seq<Token>, PErr> {
    if ts.len() == 0 {
        Err(PErr::RanOutOfTokens)
    } else if token_view(ts[0]) == token_view(t) {
        Ok(ts.drop_first())
    } else {
        Err(PErr::ExpectedTokenButFound(t, ts[0]))
    }
}

/// An expression whose operators all bind tighter than `prec`.
pub open spec fn spec_expr(ts: Seq<Token>, prec: Precedences) -> Parsed<Ast>
    decreases ts.len(), 2int,
{
    if ts.len() == 0 {
        Err(PErr::RanOutOfTokens)
    } else {
        let rest = ts.drop_first();
        let head = match ts[0] {
            Token::Identifier(s) => Ok((Ast::Identifier(s@), rest)),
            Token::Integer(s) => Ok((Ast::Integer(s@), rest)),
            Token::Float(s) => Ok((Ast::Float(s@), rest)),
            Token::String(s) => Ok((Ast::Str(s@), rest)),
            Token::Boolean(s) => Ok((Ast::Boolean(s@), rest)),
            Token::Subtract => spec_prefix(Token::Subtract, rest),
            Token::Invert => spec_prefix(Token::Invert, rest),
            Token::LParent => spec_grouped(rest),
            Token::If => spec_if(rest),
            Token::While => spec_while(rest),
            Token::LBracket => spec_array(rest),
            Token::Error => spec_error(rest),
            t => Err(PErr::UnexpectedTokenFound(t)),
        };
        match head {
            Ok((left, r)) => if r.len() < ts.len() {
                spec_climb(left, r, prec)
            } else {
                Err(PErr::RanOutOfTokens)
            },
            Err(e) => Err(e),
        }
    }
}

/// Extends `left` by operators that bind tighter than `prec`, left to right.
pub open spec fn spec_climb(left: Ast, ts: Seq<Token>, prec: Precedences) -> Parsed<Ast>
    decreases ts.len(), 1int,
{
    if ts.len() == 0 {
        Ok((left, ts))
    } else {
        let t = ts[0];
        if t is Semicolon || prec.rank() >= precedence_of(t).rank() || !continues_expression(t) {
            Ok((left, ts))
        } else {
            let rest = ts.drop_first();
            let step = if t is LParent {
                spec_call(left, rest)
            } else if t is Assign {
                spec_assign(left, rest)
            } else if t is LBracket {
                spec_access(left, rest)
            } else {
                spec_infix(left, t, rest)
            };
            match step {
                Ok((e, r)) => if r.len() < ts.len() {
                    spec_climb(e, r, prec)
                } else {
                    Err(PErr::RanOutOfTokens)
                },
                Err(e) => Err(e),
            }
        }
    }
}

/// The operand of a prefix operator `op`, which was consumed.
pub open spec fn spec_prefix(op: Token, ts: Seq<Token>) -> Parsed<Ast>
    decreases ts.len(), 3int,
{
    match spec_expr(ts, Precedences::Prefix) {
        Ok((v, r)) => Ok((Ast::Prefix(op, Box::new(v)), r)),
        Err(e) => Err(e),
    }
}

/// The right operand of the infix operator `op`, which was consumed.
pub open spec fn spec_infix(left: Ast, op: Token, ts: Seq<Token>) -> Parsed<Ast>
    decreases ts.len(), 3int,
{
    match spec_expr(ts, precedence_of(op)) {
        Ok((v, r)) => Ok((Ast::Infix(Box::new(left), op, Box::new(v)), r)),
        Err(e) => Err(e),
    }
}

/// `( expr )`, after the opening parenthesis.
pub open spec fn spec_grouped(ts: Seq<Token>) -> Parsed<Ast>
    decreases ts.len(), 3int,
{
    match spec_expr(ts, Precedences::Lowest) {
        Ok((v, r)) => match spec_expect(r, Token::RParent) {
            Ok(r2) => Ok((v, r2)),
            Err(e) => Err(e),
        },
        Err(e) => Err(e),
    }
}

/// `err ( expr )`, after `err`.
pub open spec fn spec_error(ts: Seq<Token>) -> Parsed<Ast>
    decreases ts.len(), 3int,
{
    match spec_expect(ts, Token::LParent) {
        Ok(r) => match spec_expr(r, Precedences::Lowest) {
            Ok((v, r2)) => match spec_expect(r2, Token::RParent) {
                Ok(r3) => Ok((Ast::Error(Box::new(v)), r3)),
                Err(e) => Err(e),
            },
            Err(e) => Err(e),
        },
        Err(e) => Err(e),
    }
}

/// `if ( cond ) { .. } [else { .. }]`, after `if`.
pub open spec fn spec_if(ts: Seq<Token>) -> Parsed<Ast>
    decreases ts.len(), 3int,
{
    match spec_expect(ts, Token::LParent) {
        Ok(r) => match spec_expr(r, Precedences::Lowest) {
            Ok((c, r2)) => match spec_expect(r2, Token::RParent) {
                Ok(r3) => if r3.len() < ts.len() {
                    match spec_block(r3) {
                        Ok((b, r4)) => if starts_with(r4, Token::Else) && r4.len() < ts.len() {
                            match spec_block(r4.drop_first()) {
                                Ok((a, r5)) => Ok(
                                    (Ast::If(Box::new(c), Box::new(b), Some(Box::new(a))), r5),
                                ),
                                Err(e) => Err(e),
                            }
                        } else {
                            Ok((Ast::If(Box::new(c), Box::new(b), None), r4))
                        },
                        Err(e) => Err(e),
                    }
                } else {
                    Err(PErr::RanOutOfTokens)
                },
                Err(e) => Err(e),
            },
            Err(e) => Err(e),
        },
        Err(e) => Err(e),
    }
}

/// `while ( cond ) { .. }`, after `while`.
pub open spec fn spec_while(ts: Seq<Token>) -> Parsed<Ast>
    decreases ts.len(), 3int,
{
    match spec_expect(ts, Token::LParent) {
        Ok(r) => match spec_expr(r, Precedences::Lowest) {
            Ok((c, r2)) => match spec_expect(r2, Token::RParent) {
                Ok(r3) => if r3.len() < ts.len() {
                    match spec_block(r3) {
                        Ok((b, r4)) => Ok((Ast::While(Box::new(c), Box::new(b)), r4)),
                        Err(e) => Err(e),
                    }
                } else {
                    Err(PErr::RanOutOfTokens)
                },
                Err(e) => Err(e),
            },
            Err(e) => Err(e),
        },
        Err(e) => Err(e),
    }
}

/// `left = value`, after `=`.
pub open spec fn spec_assign(left: Ast, ts: Seq<Token>) -> Parsed<Ast>
    decreases ts.len(), 3int,
{
    if is_assignable(left) {
        match spec_expr(ts, Precedences::Lowest) {
            Ok((v, r)) => Ok((Ast::Assign(Box::new(left), Box::new(v)), r)),
            Err(e) => Err(e),
        }
    } else {
        Err(PErr::ExpectedButFoundExpression("Identifier"@, left))
    }
}

/// `name ( args )`, after `(`.
pub open spec fn spec_call(left: Ast, ts: Seq<Token>) -> Parsed<Ast>
    decreases ts.len(), 4int,
{
    match left {
        Ast::Identifier(name) => match spec_list(ts, Token::RParent) {
            Ok((args, r)) => Ok((Ast::Call(name, args), r)),
            Err(e) => Err(e),
        },
        _ => Err(PErr::ExpectedButFoundExpression("Identifier"@, left)),
    }
}

/// `source [ index ]`, after `[`.
pub open spec fn spec_access(left: Ast, ts: Seq<Token>) -> Parsed<Ast>
    decreases ts.len(), 3int,
{
    match spec_expr(ts, Precedences::Lowest) {
        Ok((i, r)) => match spec_expect(r, Token::RBracket) {
            Ok(r2) => Ok((Ast::Access(Box::new(left), Box::new(i)), r2)),
            Err(e) => Err(e),
        },
        Err(e) => Err(e),
    }
}

/// `[ elements ]`, after `[`.
pub open spec fn spec_array(ts: Seq<Token>) -> Parsed<Ast>
    decreases ts.len(), 4int,
{
    match spec_list(ts, Token::RBracket) {
        Ok((vs, r)) => Ok((Ast::Array(vs), r)),
        Err(e) => Err(e),
    }
}

/// Expressions separated by commas up to the token `close`, which is consumed.
pub open spec fn spec_list(ts: Seq<Token>, close: Token) -> Parsed<Seq<Ast>>
    decreases ts.len(), 3int,
{
    if starts_with(ts, close) {
        Ok((Seq::empty(), ts.drop_first()))
    } else {
        match spec_expr(ts, Precedences::Lowest) {
            Ok((e, r)) => if r.len() < ts.len() {
                spec_list_tail(seq![e], r, close)
            } else {
                Err(PErr::RanOutOfTokens)
            },
            Err(e) => Err(e),
        }
    }
}

/// The rest of a list after the elements `acc`.
pub open spec fn spec_list_tail(acc: Seq<Ast>, ts: Seq<Token>, close: Token) -> Parsed<Seq<Ast>>
    decreases ts.len(), 3int,
{
    if ts.len() == 0 {
        Err(PErr::RanOutOfTokens)
    } else if ts[0] == close {
        Ok((acc, ts.drop_first()))
    } else {
        match spec_expect(ts, Token::Comma) {
            Ok(r) => match spec_expr(r, Precedences::Lowest) {
                Ok((e, r2)) => if r2.len() < ts.len() {
                    spec_list_tail(acc.push(e), r2, close)
                } else {
                    Err(PErr::RanOutOfTokens)
                },
                Err(e) => Err(e),
            },
            Err(e) => Err(e),
        }
    }
}

/// `{ statements }`.
pub open spec fn spec_block(ts: Seq<Token>) -> Parsed<Ast>
    decreases ts.len(), 5int,
{
    match spec_expect(ts, Token::LBrace) {
        Ok(r) => spec_block_tail(Seq::empty(), r),
        Err(e) => Err(e),
    }
}

/// The rest of a block after the statements `acc`.
pub open spec fn spec_block_tail(acc: Seq<Stm>, ts: Seq<Token>) -> Parsed<Ast>
    decreases ts.len(), 5int,
{
    if ts.len() == 0 {
        Err(PErr::RanOutOfTokens)
    } else if ts[0] is RBrace {
        Ok((Ast::Block(acc), ts.drop_first()))
    } else {
        match spec_statement(ts) {
            Ok((s, r)) => if r.len() < ts.len() {
                spec_block_tail(acc.push(s), r)
            } else {
                Err(PErr::RanOutOfTokens)
            },
            Err(e) => Err(e),
        }
    }
}

/// One statement, chosen by its first token.
pub open spec fn spec_statement(ts: Seq<Token>) -> Parsed<Stm>
    decreases ts.len(), 4int,
{
    if ts.len() == 0 {
        Err(PErr::RanOutOfTokens)
    } else {
        match ts[0] {
            Token::Let => spec_let(ts.drop_first()),
            Token::Function => spec_function(ts.drop_first()),
            Token::Return => spec_return(ts.drop_first()),
            _ => spec_expression_statement(ts),
        }
    }
}

/// An expression, then an optional `;`.
pub open spec fn spec_expression_statement(ts: Seq<Token>) -> Parsed<Stm>
    decreases ts.len(), 3int,
{
    match spec_expr(ts, Precedences::Lowest) {
        Ok((v, r)) => if starts_with(r, Token::Semicolon) {
            Ok((Stm::Expression(v), r.drop_first()))
        } else {
            Ok((Stm::Expression(v), r))
        },
        Err(e) => Err(e),
    }
}

/// `ret value ;`, after `ret`.
pub open spec fn spec_return(ts: Seq<Token>) -> Parsed<Stm>
    decreases ts.len(), 3int,
{
    match spec_expr(ts, Precedences::Lowest) {
        Ok((v, r)) => match spec_expect(r, Token::Semicolon) {
            Ok(r2) => Ok((Stm::Return(v), r2)),
            Err(e) => Err(e),
        },
        Err(e) => Err(e),
    }
}

/// `let name [: type] = value ;`, after `let`.
pub open spec fn spec_let(ts: Seq<Token>) -> Parsed<Stm>
    decreases ts.len(), 3int,
{
    if ts.len() == 0 {
        Err(PErr::RanOutOfTokens)
    } else {
        match ts[0] {
            Token::Identifier(name) => {
                let r = ts.drop_first();
                if starts_with(r, Token::Colon) {
                    let r2 = r.drop_first();
                    if r2.len() == 0 {
                        Err(PErr::RanOutOfTokens)
                    } else if !is_type_token(r2[0]) {
                        Err(PErr::ExpectedButFound("Type"@, r2[0]))
                    } else {
                        spec_let_value(name@, Some(r2[0]), r2.drop_first())
                    }
                } else {
                    spec_let_value(name@, None, r)
                }
            },
            t => Err(PErr::ExpectedButFound("Identifier"@, t)),
        }
    }
}

/// `= value ;` of a `let` statement.
pub open spec fn spec_let_value(name: Seq<char>, ty: Option<Token>, ts: Seq<Token>) -> Parsed<Stm>
    decreases ts.len(), 3int,
{
    match spec_expect(ts, Token::Assign) {
        Ok(r) => match spec_expr(r, Precedences::Lowest) {
            Ok((v, r2)) => match spec_expect(r2, Token::Semicolon) {
                Ok(r3) => Ok((Stm::Let(name, ty, v), r3)),
                Err(e) => Err(e),
            },
            Err(e) => Err(e),
        },
        Err(e) => Err(e),
    }
}

/// `name : type`, one parameter of a function.
pub open spec fn spec_parameter(ts: Seq<Token>) -> Parsed<(Seq<char>, Token)> {
    if ts.len() == 0 {
        Err(PErr::RanOutOfTokens)
    } else {
        match ts[0] {
            Token::Identifier(name) => match spec_expect(ts.drop_first(), Token::Colon) {
                Ok(r) => if r.len() == 0 {
                    Err(PErr::RanOutOfTokens)
                } else if !is_type_token(r[0]) {
                    Err(PErr::ExpectedButFound("Type"@, r[0]))
                } else {
                    Ok(((name@, r[0]), r.drop_first()))
                },
                Err(e) => Err(e),
            },
            t => Err(PErr::ExpectedButFound("Identifier"@, t)),
        }
    }
}

/// The parameter list of a function up to and with `)`, after `(`.
pub open spec fn spec_parameters(ts: Seq<Token>) -> Parsed<Seq<(Seq<char>, Token)>> {
    if starts_with(ts, Token::RParent) {
        Ok((Seq::empty(), ts.drop_first()))
    } else {
        match spec_parameter(ts) {
            Ok((p, r)) => if r.len() < ts.len() {
                spec_parameters_tail(seq![p], r)
            } else {
                Err(PErr::RanOutOfTokens)
            },
            Err(e) => Err(e),
        }
    }
}

/// The rest of a parameter list after the parameters `acc`.
pub open spec fn spec_parameters_tail(acc: Seq<(Seq<char>, Token)>, ts: Seq<Token>) -> Parsed<
    Seq<(Seq<char>, Token)>,
>
    decreases ts.len(),
{
    if ts.len() == 0 {
        Err(PErr::RanOutOfTokens)
    } else if ts[0] is RParent {
        Ok((acc, ts.drop_first()))
    } else {
        match spec_expect(ts, Token::Comma) {
            Ok(r) => match spec_parameter(r) {
                Ok((p, r2)) => if r2.len() < ts.len() {
                    spec_parameters_tail(acc.push(p), r2)
                } else {
                    Err(PErr::RanOutOfTokens)
                },
                Err(e) => Err(e),
            },
            Err(e) => Err(e),
        }
    }
}

/// `function name ( params ) [: type] { body }`, after `function`.
pub open spec fn spec_function(ts: Seq<Token>) -> Parsed<Stm>
    decreases ts.len(), 3int,
{
    if ts.len() == 0 {
        Err(PErr::RanOutOfTokens)
    } else {
        match ts[0] {
            Token::Identifier(name) => match spec_expect(ts.drop_first(), Token::LParent) {
                Ok(r) => match spec_parameters(r) {
                    Ok((ps, r2)) => if r2.len() < ts.len() {
                        if starts_with(r2, Token::Colon) {
                            let r3 = r2.drop_first();
                            if r3.len() == 0 {
                                Err(PErr::RanOutOfTokens)
                            } else if !is_return_type_token(r3[0]) {
                                Err(PErr::ExpectedButFound("Type"@, r3[0]))
                            } else {
                                spec_function_body(name@, ps, r3[0], r3.drop_first())
                            }
                        } else {
                            spec_function_body(name@, ps, Token::NullType, r2)
                        }
                    } else {
                        Err(PErr::RanOutOfTokens)
                    },
                    Err(e) => Err(e),
                },
                Err(e) => Err(e),
            },
            t => Err(PErr::ExpectedButFound("Identifier"@, t)),
        }
    }
}

/// The body block of a function declaration.
pub open spec fn spec_function_body(
    name: Seq<char>,
    ps: Seq<(Seq<char>, Token)>,
    ty: Token,
    ts: Seq<Token>,
) -> Parsed<Stm>
    decreases ts.len(), 6int,
{
    match spec_block(ts) {
        Ok((b, r)) => Ok((Stm::Function(name, ps, ty, b), r)),
        Err(e) => Err(e),
    }
}

/// A whole program: statements until the tokens run out, after `acc`.
pub open spec fn spec_program_from(acc: Seq<Stm>, ts: Seq<Token>) -> Result<Seq<Stm>, PErr>
    decreases ts.len(),
{
    if ts.len() == 0 {
        Ok(acc)
    } else {
        match spec_statement(ts) {
            Ok((s, r)) => if r.len() < ts.len() {
                spec_program_from(acc.push(s), r)
            } else {
                Err(PErr::RanOutOfTokens)
            },
            Err(e) => Err(e),
        }
    }
}

pub open spec fn spec_program(ts: Seq<Token>) -> Result<Seq<Stm>, PErr> {
    spec_program_from(Seq::empty(), ts)
}

} // verus!
