use vstd::prelude::*;
use crate::ast::{exprs_view, program_view, params_view, stmts_view, Ast, Expression, Statement, Stm};
use crate::error::{PErr, ParseError};
use crate::grammar::{
    continues_expression, is_return_type_token, is_type_token,
    spec_access, spec_array, spec_assign, spec_block, spec_block_tail, spec_call, spec_climb,
    spec_error, spec_expect, spec_expr, spec_expression_statement, spec_function,
    spec_grouped, spec_if, spec_infix, spec_let, spec_list,
    spec_list_tail, spec_parameter, spec_parameters, spec_parameters_tail, spec_prefix,
    spec_program, spec_program_from, spec_return, spec_statement, spec_while, starts_with,
    Parsed,
};
use crate::token::{Precedences, Token};

verus! {

broadcast use vstd::std_specs::vec::group_vec_axioms;

/// What an expression parse returned, in the form the grammar speaks of.
pub open spec fn expr_outcome(r: Result<Expression, ParseError>, rest: Seq<Token>) -> Parsed<Ast> {
    match r {
        Ok(e) => Ok((e@, rest)),
        Err(e) => Err(e@),
    }
}

/// What a statement parse returned, in the form the grammar speaks of.
pub open spec fn stmt_outcome(r: Result<Statement, ParseError>, rest: Seq<Token>) -> Parsed<Stm> {
    match r {
        Ok(s) => Ok((s@, rest)),
        Err(e) => Err(e@),
    }
}

/// What a list parse returned, in the form the grammar speaks of.
pub open spec fn list_outcome(r: Result<Vec<Box<Expression>>, ParseError>, rest: Seq<Token>) -> Parsed<
    Seq<Ast>,
> {
    match r {
        Ok(v) => Ok((exprs_view(v@), rest)),
        Err(e) => Err(e@),
    }
}

/// What a parameter list parse returned, in the form the grammar speaks of.
pub open spec fn params_outcome(r: Result<Vec<(String, Token)>, ParseError>, rest: Seq<Token>) -> Parsed<
    Seq<(Seq<char>, Token)>,
> {
    match r {
        Ok(v) => Ok((params_view(v@), rest)),
        Err(e) => Err(e@),
    }
}

/// What a program parse returned, in the form the grammar speaks of.
pub open spec fn program_outcome(r: Result<Vec<Statement>, ParseError>) -> Result<Seq<Stm>, PErr> {
    match r {
        Ok(v) => Ok(program_view(v@)),
        Err(e) => Err(e@),
    }
}

/// Turns a token sequence into statements by recursive descent and
/// precedence climbing.
pub struct Parser {
    /// The tokens not read yet, last one first: the next token is at the end.
    tokens: Vec<Token>,
}

impl Parser {
    /// The tokens not read yet, in program order.
    pub closed spec fn rest(&self) -> Seq<Token> {
        Seq::new(self.tokens@.len(), |i: int| self.tokens@[self.tokens@.len() - 1 - i])
    }

    pub fn from_tokens(tokens: Vec<Token>) -> (r: Self)
        ensures
            r.rest() == tokens@,
    {
        let ghost all = tokens@;
        let mut input = tokens;
        let mut reversed: Vec<Token> = Vec::new();
        while input.len() > 0
            invariant
                input@.len() + reversed@.len() == all.len(),
                input@ == all.subrange(0, input@.len() as int),
                forall|i: int|
                    0 <= i < reversed@.len() ==> #[trigger] reversed@[i] == all[all.len() - 1 - i],
            decreases input@.len(),
        {
            let t = input.pop().unwrap();
            reversed.push(t);
        }
        let r = Parser { tokens: reversed };
        assert(r.rest() =~= all);
        r
    }

    fn peek(&self) -> (r: Option<&Token>)
        ensures
            match r {
                Some(t) => self.rest().len() > 0 && *t == self.rest()[0],
                None => self.rest().len() == 0,
            },
    {
        let n = self.tokens.len();
        if n == 0 {
            None
        } else {
            Some(&self.tokens[n - 1])
        }
    }

    /// Whether the next token is `t`.
    fn peek_is(&self, t: &Token) -> (r: bool)
        requires
            t.is_bare(),
        ensures
            r == starts_with(self.rest(), *t),
    {
        match self.peek() {
            Some(cur) => cur.equal_variant(t),
            None => false,
        }
    }

    fn next_token(&mut self) -> (r: Option<Token>)
        ensures
            old(self).rest().len() == 0 ==> r is None && final(self).rest() == old(self).rest(),
            old(self).rest().len() > 0 ==> r == Some(old(self).rest()[0]) && final(self).rest()
                == old(self).rest().drop_first(),
    {
        let r = self.tokens.pop();
        assert(self.rest() =~= old(self).rest().drop_first() || old(self).rest().len() == 0);
        r
    }

    /// Consumes the next token, which must equal `token`. A different token is
    /// consumed too; with no token left nothing is.
    pub fn assert_next_token(&mut self, token: Token) -> (r: Result<(), ParseError>)
        ensures
            match r {
                Ok(_) => spec_expect(old(self).rest(), token) == Ok::<Seq<Token>, PErr>(
                    final(self).rest(),
                ),
                Err(e) => spec_expect(old(self).rest(), token) == Err::<Seq<Token>, PErr>(e@),
            },
            old(self).rest().len() > 0 ==> final(self).rest() == old(self).rest().drop_first(),
            old(self).rest().len() == 0 ==> final(self).rest() == old(self).rest(),
    {
        match self.next_token() {
            Some(cur) => {
                if cur.same_token(&token) {
                    Ok(())
                } else {
                    Err(ParseError::ExpectedTokenButFound(token, cur))
                }
            },
            None => Err(ParseError::RanOutOfTokens),
        }
    }

    /// An expression whose operators all bind tighter than `precedences`.
    pub fn parse_expression(&mut self, precedences: Precedences) -> (r: Result<Expression, ParseError>)
        ensures
            expr_outcome(r, final(self).rest()) == spec_expr(old(self).rest(), precedences),
            r is Ok ==> final(self).rest().len() < old(self).rest().len(),
        decreases old(self).rest().len(), 2int,
    {
        let ghost ts = self.rest();
        let t = match self.next_token() {
            Some(t) => t,
            None => return Err(ParseError::RanOutOfTokens),
        };
        let head = match t {
            Token::Identifier(name) => Ok(Expression::Identifier { name }),
            Token::Integer(value) => Ok(Expression::Integer { value }),
            Token::Float(value) => Ok(Expression::Float { value }),
            Token::String(value) => Ok(Expression::String { value }),
            Token::Boolean(value) => Ok(Expression::Boolean { value }),
            Token::Subtract => self.parse_prefix_expression(Token::Subtract),
            Token::Invert => self.parse_prefix_expression(Token::Invert),
            Token::LParent => self.parse_grouped_expression(),
            Token::If => self.parse_if_expression(),
            Token::While => self.parse_while_expression(),
            Token::LBracket => self.parse_array_expression(),
            Token::Error => self.parse_error_expression(),
            other => Err(ParseError::UnexpectedTokenFound(other)),
        };
        let mut left = match head {
            Ok(e) => e,
            Err(e) => return Err(e),
        };
        loop
            invariant
                ts == old(self).rest(),
                spec_expr(ts, precedences) == spec_climb(left@, self.rest(), precedences),
                self.rest().len() < ts.len(),
            decreases self.rest().len(),
        {
            let stop = match self.peek() {
                Some(tok) => tok.equal_variant(&Token::Semicolon) || precedences.level()
                    >= tok.precedence().level() || !Self::continues(tok),
                None => true,
            };
            if stop {
                return Ok(left);
            }
            let tok = match self.next_token() {
                Some(tok) => tok,
                None => return Err(ParseError::RanOutOfTokens),
            };
            let step = if tok.equal_variant(&Token::LParent) {
                self.parse_call_expression(left)
            } else if tok.equal_variant(&Token::Assign) {
                self.parse_assign_expression(left)
            } else if tok.equal_variant(&Token::LBracket) {
                self.parse_access_expression(left)
            } else {
                self.parse_infix_expression(left, tok)
            };
            left = match step {
                Ok(e) => e,
                Err(e) => return Err(e),
            };
        }
    }

    fn continues(t: &Token) -> (r: bool)
        ensures
            r == continues_expression(*t),
    {
        match t {
            Token::Add | Token::Subtract | Token::Multiply | Token::Divide | Token::Modular
            | Token::Equal | Token::NotEqual | Token::LessThan | Token::GreaterThan
            | Token::LessThanEqual | Token::GreaterThanEqual | Token::Or | Token::And
            | Token::LParent | Token::Assign | Token::LBracket => true,
            _ => false,
        }
    }

    /// The operand of the prefix operator `prefix`, which was consumed.
    pub fn parse_prefix_expression(&mut self, prefix: Token) -> (r: Result<Expression, ParseError>)
        ensures
            expr_outcome(r, final(self).rest()) == spec_prefix(prefix, old(self).rest()),
            r is Ok ==> final(self).rest().len() < old(self).rest().len(),
        decreases old(self).rest().len(), 3int,
    {
        match self.parse_expression(Precedences::Prefix) {
            Ok(v) => Ok(Expression::Prefix { prefix, value: Box::new(v) }),
            Err(e) => Err(e),
        }
    }

    /// The right operand of the infix operator `infix`, which was consumed.
    pub fn parse_infix_expression(&mut self, left: Expression, infix: Token) -> (r: Result<
        Expression,
        ParseError,
    >)
        ensures
            expr_outcome(r, final(self).rest()) == spec_infix(left@, infix, old(self).rest()),
            r is Ok ==> final(self).rest().len() < old(self).rest().len(),
        decreases old(self).rest().len(), 3int,
    {
        let precedence = infix.precedence();
        match self.parse_expression(precedence) {
            Ok(right) => Ok(
                Expression::Infix { left: Box::new(left), operation: infix, right: Box::new(right) },
            ),
            Err(e) => Err(e),
        }
    }

    /// `( expr )`, after the opening parenthesis.
    pub fn parse_grouped_expression(&mut self) -> (r: Result<Expression, ParseError>)
        ensures
            expr_outcome(r, final(self).rest()) == spec_grouped(old(self).rest()),
            r is Ok ==> final(self).rest().len() < old(self).rest().len(),
        decreases old(self).rest().len(), 3int,
    {
        let expr = match self.parse_expression(Precedences::Lowest) {
            Ok(e) => e,
            Err(e) => return Err(e),
        };
        match self.assert_next_token(Token::RParent) {
            Ok(_) => Ok(expr),
            Err(e) => Err(e),
        }
    }

    /// `err ( expr )`, after `err`.
    pub fn parse_error_expression(&mut self) -> (r: Result<Expression, ParseError>)
        ensures
            expr_outcome(r, final(self).rest()) == spec_error(old(self).rest()),
            r is Ok ==> final(self).rest().len() < old(self).rest().len(),
        decreases old(self).rest().len(), 3int,
    {
        if let Err(e) = self.assert_next_token(Token::LParent) {
            return Err(e);
        }
        let value = match self.parse_expression(Precedences::Lowest) {
            Ok(e) => e,
            Err(e) => return Err(e),
        };
        match self.assert_next_token(Token::RParent) {
            Ok(_) => Ok(Expression::Error { value: Box::new(value) }),
            Err(e) => Err(e),
        }
    }

    /// `left = value`, after `=`: `left` must be an identifier or an array access.
    pub fn parse_assign_expression(&mut self, left: Expression) -> (r: Result<Expression, ParseError>)
        ensures
            expr_outcome(r, final(self).rest()) == spec_assign(left@, old(self).rest()),
            r is Ok ==> final(self).rest().len() < old(self).rest().len(),
        decreases old(self).rest().len(), 3int,
    {
        let assignable = match &left {
            Expression::Identifier { .. } | Expression::Access { .. } => true,
            _ => false,
        };
        if !assignable {
            return Err(
                ParseError::ExpectedButFoundExpression(String::from_str("Identifier"), left),
            );
        }
        match self.parse_expression(Precedences::Lowest) {
            Ok(value) => Ok(Expression::Assign { assign_to: Box::new(left), value: Box::new(value) }),
            Err(e) => Err(e),
        }
    }

    /// `source [ index ]`, after `[`.
    pub fn parse_access_expression(&mut self, source: Expression) -> (r: Result<
        Expression,
        ParseError,
    >)
        ensures
            expr_outcome(r, final(self).rest()) == spec_access(source@, old(self).rest()),
            r is Ok ==> final(self).rest().len() < old(self).rest().len(),
        decreases old(self).rest().len(), 3int,
    {
        let index = match self.parse_expression(Precedences::Lowest) {
            Ok(e) => e,
            Err(e) => return Err(e),
        };
        match self.assert_next_token(Token::RBracket) {
            Ok(_) => Ok(Expression::Access { source: Box::new(source), index: Box::new(index) }),
            Err(e) => Err(e),
        }
    }

    /// Expressions separated by commas up to `close`, which is consumed.
    fn parse_expression_list(&mut self, close: Token) -> (r: Result<Vec<Box<Expression>>, ParseError>)
        requires
            close.is_bare(),
        ensures
            list_outcome(r, final(self).rest()) == spec_list(old(self).rest(), close),
            r is Ok ==> final(self).rest().len() < old(self).rest().len(),
        decreases old(self).rest().len(), 3int,
    {
        let ghost ts = self.rest();
        if self.peek_is(&close) {
            let _ = self.next_token();
            let empty: Vec<Box<Expression>> = Vec::new();
            assert(exprs_view(empty@) =~= Seq::<Ast>::empty());
            return Ok(empty);
        }
        let first = match self.parse_expression(Precedences::Lowest) {
            Ok(e) => e,
            Err(e) => return Err(e),
        };
        let mut values: Vec<Box<Expression>> = Vec::new();
        values.push(Box::new(first));
        assert(exprs_view(values@) =~= seq![first@]);
        loop
            invariant
                close.is_bare(),
                ts == old(self).rest(),
                spec_list(ts, close) == spec_list_tail(exprs_view(values@), self.rest(), close),
                self.rest().len() < ts.len(),
            decreases self.rest().len(),
        {
            let ghost before = self.rest();
            match self.peek() {
                None => return Err(ParseError::RanOutOfTokens),
                Some(tok) => {
                    if tok.equal_variant(&close) {
                        let _ = self.next_token();
                        return Ok(values);
                    }
                },
            }
            if let Err(e) = self.assert_next_token(Token::Comma) {
                return Err(e);
            }
            let e = match self.parse_expression(Precedences::Lowest) {
                Ok(e) => e,
                Err(e) => return Err(e),
            };
            let ghost prev = exprs_view(values@);
            values.push(Box::new(e));
            assert(exprs_view(values@) =~= prev.push(e@));
        }
    }

    /// `name ( args )`, after `(`: `left` must be an identifier.
    pub fn parse_call_expression(&mut self, left: Expression) -> (r: Result<Expression, ParseError>)
        ensures
            expr_outcome(r, final(self).rest()) == spec_call(left@, old(self).rest()),
            r is Ok ==> final(self).rest().len() < old(self).rest().len(),
        decreases old(self).rest().len(), 4int,
    {
        let name = match left {
            Expression::Identifier { name } => name,
            other => {
                return Err(
                    ParseError::ExpectedButFoundExpression(String::from_str("Identifier"), other),
                )
            },
        };
        match self.parse_expression_list(Token::RParent) {
            Ok(arguments) => {
                proof {
                    crate::ast::lemma_call_view(name, arguments);
                }
                Ok(Expression::Call { name, arguments })
            },
            Err(e) => Err(e),
        }
    }

    /// `[ elements ]`, after `[`.
    pub fn parse_array_expression(&mut self) -> (r: Result<Expression, ParseError>)
        ensures
            expr_outcome(r, final(self).rest()) == spec_array(old(self).rest()),
            r is Ok ==> final(self).rest().len() < old(self).rest().len(),
        decreases old(self).rest().len(), 4int,
    {
        match self.parse_expression_list(Token::RBracket) {
            Ok(values) => {
                proof {
                    crate::ast::lemma_array_view(values);
                }
                Ok(Expression::Array { values })
            },
            Err(e) => Err(e),
        }
    }

    /// `{ statements }`.
    pub fn parse_block_expression(&mut self) -> (r: Result<Expression, ParseError>)
        ensures
            expr_outcome(r, final(self).rest()) == spec_block(old(self).rest()),
            r is Ok ==> final(self).rest().len() < old(self).rest().len(),
        decreases old(self).rest().len(), 5int,
    {
        let ghost ts = self.rest();
        if let Err(e) = self.assert_next_token(Token::LBrace) {
            return Err(e);
        }
        let mut statements: Vec<Box<Statement>> = Vec::new();
        assert(stmts_view(statements@) =~= Seq::<Stm>::empty());
        loop
            invariant
                ts == old(self).rest(),
                spec_block(ts) == spec_block_tail(stmts_view(statements@), self.rest()),
                self.rest().len() < ts.len(),
            decreases self.rest().len(),
        {
            match self.peek() {
                None => return Err(ParseError::RanOutOfTokens),
                Some(tok) => {
                    if tok.equal_variant(&Token::RBrace) {
                        let _ = self.next_token();
                        proof {
                            crate::ast::lemma_block_view(statements);
                        }
                        return Ok(Expression::Block { statements });
                    }
                },
            }
            let s = match self.parse_statement() {
                Ok(s) => s,
                Err(e) => return Err(e),
            };
            let ghost prev = stmts_view(statements@);
            statements.push(Box::new(s));
            assert(stmts_view(statements@) =~= prev.push(s@));
        }
    }

    /// `if ( cond ) { .. } [else { .. }]`, after `if`.
    pub fn parse_if_expression(&mut self) -> (r: Result<Expression, ParseError>)
        ensures
            expr_outcome(r, final(self).rest()) == spec_if(old(self).rest()),
            r is Ok ==> final(self).rest().len() < old(self).rest().len(),
        decreases old(self).rest().len(), 3int,
    {
        if let Err(e) = self.assert_next_token(Token::LParent) {
            return Err(e);
        }
        let condition = match self.parse_expression(Precedences::Lowest) {
            Ok(e) => e,
            Err(e) => return Err(e),
        };
        if let Err(e) = self.assert_next_token(Token::RParent) {
            return Err(e);
        }
        let consequence = match self.parse_block_expression() {
            Ok(e) => e,
            Err(e) => return Err(e),
        };
        if self.peek_is(&Token::Else) {
            let _ = self.next_token();
            match self.parse_block_expression() {
                Ok(alternative) => Ok(
                    Expression::If {
                        condition: Box::new(condition),
                        consequence: Box::new(consequence),
                        alternative: Some(Box::new(alternative)),
                    },
                ),
                Err(e) => Err(e),
            }
        } else {
            Ok(
                Expression::If {
                    condition: Box::new(condition),
                    consequence: Box::new(consequence),
                    alternative: None,
                },
            )
        }
    }

    /// `while ( cond ) { .. }`, after `while`.
    pub fn parse_while_expression(&mut self) -> (r: Result<Expression, ParseError>)
        ensures
            expr_outcome(r, final(self).rest()) == spec_while(old(self).rest()),
            r is Ok ==> final(self).rest().len() < old(self).rest().len(),
        decreases old(self).rest().len(), 3int,
    {
        if let Err(e) = self.assert_next_token(Token::LParent) {
            return Err(e);
        }
        let condition = match self.parse_expression(Precedences::Lowest) {
            Ok(e) => e,
            Err(e) => return Err(e),
        };
        if let Err(e) = self.assert_next_token(Token::RParent) {
            return Err(e);
        }
        match self.parse_block_expression() {
            Ok(consequence) => Ok(
                Expression::While {
                    condition: Box::new(condition),
                    consequence: Box::new(consequence),
                },
            ),
            Err(e) => Err(e),
        }
    }

    /// One statement, chosen by its first token.
    pub fn parse_statement(&mut self) -> (r: Result<Statement, ParseError>)
        ensures
            stmt_outcome(r, final(self).rest()) == spec_statement(old(self).rest()),
            r is Ok ==> final(self).rest().len() < old(self).rest().len(),
        decreases old(self).rest().len(), 4int,
    {
        let kind: u8 = match self.peek() {
            None => return Err(ParseError::RanOutOfTokens),
            Some(Token::Let) => 0,
            Some(Token::Function) => 1,
            Some(Token::Return) => 2,
            Some(_) => 3,
        };
        if kind == 0 {
            self.parse_let_statement()
        } else if kind == 1 {
            self.parse_function_statement()
        } else if kind == 2 {
            self.parse_return_statement()
        } else {
            self.parse_expression_statement()
        }
    }

    /// An expression, then an optional `;`.
    pub fn parse_expression_statement(&mut self) -> (r: Result<Statement, ParseError>)
        ensures
            stmt_outcome(r, final(self).rest()) == spec_expression_statement(old(self).rest()),
            r is Ok ==> final(self).rest().len() < old(self).rest().len(),
        decreases old(self).rest().len(), 3int,
    {
        let value = match self.parse_expression(Precedences::Lowest) {
            Ok(e) => e,
            Err(e) => return Err(e),
        };
        if self.peek_is(&Token::Semicolon) {
            let _ = self.next_token();
        }
        Ok(Statement::Expression { value: Box::new(value) })
    }

    /// `ret value ;`; the first token is taken as `ret`.
    pub fn parse_return_statement(&mut self) -> (r: Result<Statement, ParseError>)
        ensures
            old(self).rest().len() > 0 ==> stmt_outcome(r, final(self).rest()) == spec_return(
                old(self).rest().drop_first(),
            ),
            old(self).rest().len() == 0 ==> r == Err::<Statement, ParseError>(
                ParseError::RanOutOfTokens,
            ),
            r is Ok ==> final(self).rest().len() < old(self).rest().len(),
        decreases old(self).rest().len(), 3int,
    {
        if self.next_token().is_none() {
            return Err(ParseError::RanOutOfTokens);
        }
        let value = match self.parse_expression(Precedences::Lowest) {
            Ok(e) => e,
            Err(e) => return Err(e),
        };
        match self.assert_next_token(Token::Semicolon) {
            Ok(_) => Ok(Statement::Return { value: Box::new(value) }),
            Err(e) => Err(e),
        }
    }

    fn is_type(t: &Token) -> (r: bool)
        ensures
            r == is_type_token(*t),
    {
        match t {
            Token::IntegerType | Token::FloatType | Token::StringType | Token::BooleanType => true,
            _ => false,
        }
    }

    /// `let name [: type] = value ;`; the first token is taken as `let`.
    pub fn parse_let_statement(&mut self) -> (r: Result<Statement, ParseError>)
        ensures
            old(self).rest().len() > 0 ==> stmt_outcome(r, final(self).rest()) == spec_let(
                old(self).rest().drop_first(),
            ),
            old(self).rest().len() == 0 ==> r == Err::<Statement, ParseError>(
                ParseError::RanOutOfTokens,
            ),
            r is Ok ==> final(self).rest().len() < old(self).rest().len(),
        decreases old(self).rest().len(), 3int,
    {
        if self.next_token().is_none() {
            return Err(ParseError::RanOutOfTokens);
        }
        let name = match self.next_token() {
            Some(Token::Identifier(val)) => val,
            Some(t) => return Err(ParseError::ExpectedButFound(String::from_str("Identifier"), t)),
            None => return Err(ParseError::RanOutOfTokens),
        };
        let typee = if self.peek_is(&Token::Colon) {
            let _ = self.next_token();
            match self.next_token() {
                Some(t) => {
                    if Self::is_type(&t) {
                        Some(t)
                    } else {
                        return Err(ParseError::ExpectedButFound(String::from_str("Type"), t));
                    }
                },
                None => return Err(ParseError::RanOutOfTokens),
            }
        } else {
            None
        };
        if let Err(e) = self.assert_next_token(Token::Assign) {
            return Err(e);
        }
        let value = match self.parse_expression(Precedences::Lowest) {
            Ok(e) => e,
            Err(e) => return Err(e),
        };
        match self.assert_next_token(Token::Semicolon) {
            Ok(_) => Ok(Statement::Let { name, typee, value: Box::new(value) }),
            Err(e) => Err(e),
        }
    }

    /// `name : type`, one parameter of a function.
    fn parse_parameter(&mut self) -> (r: Result<(String, Token), ParseError>)
        ensures
            match r {
                Ok(p) => spec_parameter(old(self).rest()) == Ok::<
                    ((Seq<char>, Token), Seq<Token>),
                    PErr,
                >(((p.0@, p.1), final(self).rest())),
                Err(e) => spec_parameter(old(self).rest()) == Err::<
                    ((Seq<char>, Token), Seq<Token>),
                    PErr,
                >(e@),
            },
            r is Ok ==> final(self).rest().len() < old(self).rest().len(),
    {
        let name = match self.next_token() {
            Some(Token::Identifier(val)) => val,
            Some(t) => return Err(ParseError::ExpectedButFound(String::from_str("Identifier"), t)),
            None => return Err(ParseError::RanOutOfTokens),
        };
        if let Err(e) = self.assert_next_token(Token::Colon) {
            return Err(e);
        }
        match self.next_token() {
            Some(t) => {
                if Self::is_type(&t) {
                    Ok((name, t))
                } else {
                    Err(ParseError::ExpectedButFound(String::from_str("Type"), t))
                }
            },
            None => Err(ParseError::RanOutOfTokens),
        }
    }

    /// The parameter list of a function up to and with `)`, after `(`.
    fn parse_parameters(&mut self) -> (r: Result<Vec<(String, Token)>, ParseError>)
        ensures
            params_outcome(r, final(self).rest()) == spec_parameters(old(self).rest()),
            r is Ok ==> final(self).rest().len() < old(self).rest().len(),
    {
        let ghost ts = self.rest();
        let mut parameter: Vec<(String, Token)> = Vec::new();
        if self.peek_is(&Token::RParent) {
            let _ = self.next_token();
            assert(params_view(parameter@) =~= Seq::<(Seq<char>, Token)>::empty());
            return Ok(parameter);
        }
        let first = match self.parse_parameter() {
            Ok(p) => p,
            Err(e) => return Err(e),
        };
        let ghost fv = (first.0@, first.1);
        parameter.push(first);
        assert(params_view(parameter@) =~= seq![fv]);
        loop
            invariant
                ts == old(self).rest(),
                spec_parameters(ts) == spec_parameters_tail(params_view(parameter@), self.rest()),
                self.rest().len() < ts.len(),
            decreases self.rest().len(),
        {
            match self.peek() {
                None => return Err(ParseError::RanOutOfTokens),
                Some(tok) => {
                    if tok.equal_variant(&Token::RParent) {
                        let _ = self.next_token();
                        return Ok(parameter);
                    }
                },
            }
            if let Err(e) = self.assert_next_token(Token::Comma) {
                return Err(e);
            }
            let p = match self.parse_parameter() {
                Ok(p) => p,
                Err(e) => return Err(e),
            };
            let ghost prev = params_view(parameter@);
            let ghost pv = (p.0@, p.1);
            parameter.push(p);
            assert(params_view(parameter@) =~= prev.push(pv));
        }
    }

    fn is_return_type(t: &Token) -> (r: bool)
        ensures
            r == is_return_type_token(*t),
    {
        match t {
            Token::IntegerType | Token::FloatType | Token::StringType | Token::BooleanType
            | Token::NullType => true,
            _ => false,
        }
    }

    /// `function name ( params ) [: type] { body }`; the first token is taken
    /// as `function`. Without `: type` the function returns null.
    pub fn parse_function_statement(&mut self) -> (r: Result<Statement, ParseError>)
        ensures
            old(self).rest().len() > 0 ==> stmt_outcome(r, final(self).rest()) == spec_function(
                old(self).rest().drop_first(),
            ),
            old(self).rest().len() == 0 ==> r == Err::<Statement, ParseError>(
                ParseError::RanOutOfTokens,
            ),
            r is Ok ==> final(self).rest().len() < old(self).rest().len(),
        decreases old(self).rest().len(), 3int,
    {
        if self.next_token().is_none() {
            return Err(ParseError::RanOutOfTokens);
        }
        let name = match self.next_token() {
            Some(Token::Identifier(val)) => val,
            Some(t) => return Err(ParseError::ExpectedButFound(String::from_str("Identifier"), t)),
            None => return Err(ParseError::RanOutOfTokens),
        };
        if let Err(e) = self.assert_next_token(Token::LParent) {
            return Err(e);
        }
        let parameter = match self.parse_parameters() {
            Ok(ps) => ps,
            Err(e) => return Err(e),
        };
        let typee = if self.peek_is(&Token::Colon) {
            let _ = self.next_token();
            match self.next_token() {
                Some(t) => {
                    if Self::is_return_type(&t) {
                        t
                    } else {
                        return Err(ParseError::ExpectedButFound(String::from_str("Type"), t));
                    }
                },
                None => return Err(ParseError::RanOutOfTokens),
            }
        } else {
            Token::NullType
        };
        match self.parse_block_expression() {
            Ok(body) => Ok(Statement::Function { name, parameter, typee, body: Box::new(body) }),
            Err(e) => Err(e),
        }
    }

    /// The whole program: statements until the tokens run out.
    pub fn parse(&mut self) -> (r: Result<Vec<Statement>, ParseError>)
        ensures
            program_outcome(r) == spec_program(old(self).rest()),
            r is Ok ==> final(self).rest().len() == 0,
    {
        let ghost ts = self.rest();
        let mut statements: Vec<Statement> = Vec::new();
        assert(program_view(statements@) =~= Seq::<Stm>::empty());
        while self.tokens.len() > 0
            invariant
                ts == old(self).rest(),
                spec_program(ts) == spec_program_from(program_view(statements@), self.rest()),
            decreases self.rest().len(),
        {
            let s = match self.parse_statement() {
                Ok(s) => s,
                Err(e) => return Err(e),
            };
            let ghost prev = program_view(statements@);
            statements.push(s);
            assert(program_view(statements@) =~= prev.push(s@));
        }
        Ok(statements)
    }
}

} // verus!
