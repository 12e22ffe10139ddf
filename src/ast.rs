use vstd::prelude::*;
use crate::token::Token;

verus! {

broadcast use vstd::std_specs::vec::group_vec_axioms;

/// An expression of the language. Literal payloads keep their source text;
/// numbers are only read when the expression is evaluated.
#[derive(Debug, PartialEq, Eq)]
#[allow(inconsistent_fields)]
pub enum Expression {
    Identifier { name: String },
    Integer { value: String },
    Float { value: String },
    String { value: String },
    Boolean { value: String },
    Prefix { prefix: Token, value: Box<Expression> },
    Infix { left: Box<Expression>, operation: Token, right: Box<Expression> },
    If {
        condition: Box<Expression>,
        consequence: Box<Expression>,
        alternative: Option<Box<Expression>>,
    },
    While { condition: Box<Expression>, consequence: Box<Expression> },
    Call { name: String, arguments: Vec<Box<Expression>> },
    Error { value: Box<Expression> },
    Assign { assign_to: Box<Expression>, value: Box<Expression> },
    Array { values: Vec<Box<Expression>> },
    Block { statements: Vec<Box<Statement>> },
    Access { source: Box<Expression>, index: Box<Expression> },
}

/// A statement of the language.
#[derive(Debug, PartialEq, Eq)]
#[allow(inconsistent_fields)]
pub enum Statement {
    /// `let name [: type] = value;`; `typee` is the declared type, if any.
    Let { name: String, typee: Option<Token>, value: Box<Expression> },
    Return { value: Box<Expression> },
    Expression { value: Box<Expression> },
    /// `function name(params) [: type] { body }`; `typee` is the declared
    /// return type, `NullType` where none is written.
    Function {
        name: String,
        parameter: Vec<(String, Token)>,
        typee: Token,
        body: Box<Expression>,
    },
}

/// The mathematical form of an expression: strings as character sequences,
/// child lists as sequences.
pub enum Ast {
    Identifier(Seq<char>),
    Integer(Seq<char>),
    Float(Seq<char>),
    Str(Seq<char>),
    Boolean(Seq<char>),
    Prefix(Token, Box<Ast>),
    Infix(Box<Ast>, Token, Box<Ast>),
    If(Box<Ast>, Box<Ast>, Option<Box<Ast>>),
    While(Box<Ast>, Box<Ast>),
    Call(Seq<char>, Seq<Ast>),
    Error(Box<Ast>),
    Assign(Box<Ast>, Box<Ast>),
    Array(Seq<Ast>),
    Block(Seq<Stm>),
    Access(Box<Ast>, Box<Ast>),
}

/// The mathematical form of a statement.
pub enum Stm {
    Let(Seq<char>, Option<Token>, Ast),
    Return(Ast),
    Expression(Ast),
    Function(Seq<char>, Seq<(Seq<char>, Token)>, Token, Ast),
}

impl Expression {
    pub open spec fn view(&self) -> Ast
        decreases self,
    {
        match self {
            Expression::Identifier { name } => Ast::Identifier(name@),
            Expression::Integer { value } => Ast::Integer(value@),
            Expression::Float { value } => Ast::Float(value@),
            Expression::String { value } => Ast::Str(value@),
            Expression::Boolean { value } => Ast::Boolean(value@),
            Expression::Prefix { prefix, value } => Ast::Prefix(*prefix, Box::new(value.view())),
            Expression::Infix { left, operation, right } => Ast::Infix(
                Box::new(left.view()),
                *operation,
                Box::new(right.view()),
            ),
            Expression::If { condition, consequence, alternative } => Ast::If(
                Box::new(condition.view()),
                Box::new(consequence.view()),
                match alternative {
                    Some(a) => Some(Box::new(a.view())),
                    None => None,
                },
            ),
            Expression::While { condition, consequence } => Ast::While(
                Box::new(condition.view()),
                Box::new(consequence.view()),
            ),
            Expression::Call { name, arguments } => Ast::Call(
                name@,
                Seq::new(
                    arguments@.len(),
                    |i: int|
                        if 0 <= i < arguments@.len() {
                            arguments@[i].view()
                        } else {
                            Ast::Array(Seq::empty())
                        },
                ),
            ),
            Expression::Error { value } => Ast::Error(Box::new(value.view())),
            Expression::Assign { assign_to, value } => Ast::Assign(
                Box::new(assign_to.view()),
                Box::new(value.view()),
            ),
            Expression::Array { values } => Ast::Array(
                Seq::new(
                    values@.len(),
                    |i: int|
                        if 0 <= i < values@.len() {
                            values@[i].view()
                        } else {
                            Ast::Array(Seq::empty())
                        },
                ),
            ),
            Expression::Block { statements } => Ast::Block(
                Seq::new(
                    statements@.len(),
                    |i: int|
                        if 0 <= i < statements@.len() {
                            statements@[i].view()
                        } else {
                            Stm::Return(Ast::Array(Seq::empty()))
                        },
                ),
            ),
            Expression::Access { source, index } => Ast::Access(
                Box::new(source.view()),
                Box::new(index.view()),
            ),
        }
    }
}

impl Statement {
    pub open spec fn view(&self) -> Stm
        decreases self,
    {
        match self {
            Statement::Let { name, typee, value } => Stm::Let(name@, *typee, value.view()),
            Statement::Return { value } => Stm::Return(value.view()),
            Statement::Expression { value } => Stm::Expression(value.view()),
            Statement::Function { name, parameter, typee, body } => Stm::Function(
                name@,
                params_view(parameter@),
                *typee,
                body.view(),
            ),
        }
    }
}

/// The views of a list of expressions.
pub open spec fn exprs_view(s: Seq<Box<Expression>>) -> Seq<Ast> {
    Seq::new(s.len(), |i: int| s[i]@)
}

/// The views of a list of statements.
pub open spec fn stmts_view(s: Seq<Box<Statement>>) -> Seq<Stm> {
    Seq::new(s.len(), |i: int| s[i]@)
}

/// The views of a parameter list.
pub open spec fn params_view(s: Seq<(String, Token)>) -> Seq<(Seq<char>, Token)> {
    Seq::new(s.len(), |i: int| (s[i].0@, s[i].1))
}

/// The views of the statements of a program.
pub open spec fn program_view(s: Seq<Statement>) -> Seq<Stm> {
    Seq::new(s.len(), |i: int| s[i]@)
}

pub proof fn lemma_call_view(name: String, arguments: Vec<Box<Expression>>)
    ensures
        (Expression::Call { name, arguments })@ == Ast::Call(name@, exprs_view(arguments@)),
{
    assert((Expression::Call { name, arguments })@->Call_1 =~= exprs_view(arguments@));
}

pub proof fn lemma_block_view(statements: Vec<Box<Statement>>)
    ensures
        (Expression::Block { statements })@ == Ast::Block(stmts_view(statements@)),
{
    assert((Expression::Block { statements })@->Block_0 =~= stmts_view(statements@));
}

pub proof fn lemma_array_view(values: Vec<Box<Expression>>)
    ensures
        (Expression::Array { values })@ == Ast::Array(exprs_view(values@)),
{
    assert((Expression::Array { values })@->Array_0 =~= exprs_view(values@));
}

/// A copy of a list of expressions.
pub fn duplicate_exprs(v: &Vec<Box<Expression>>) -> (r: Vec<Box<Expression>>)
    ensures
        exprs_view(r@) == exprs_view(v@),
    decreases v,
{
    let mut r: Vec<Box<Expression>> = Vec::new();
    let mut i: usize = 0;
    while i < v.len()
        invariant
            i <= v@.len(),
            exprs_view(r@) =~= exprs_view(v@).subrange(0, i as int),
        decreases v@.len() - i,
    {
        proof {
            vstd::std_specs::vec::axiom_vec_index_decreases(*v, i as int);
        }
        let e = v[i].duplicate();
        let ghost prev = exprs_view(r@);
        r.push(Box::new(e));
        assert(exprs_view(r@) =~= prev.push(e@));
        i += 1;
    }
    assert(exprs_view(v@).subrange(0, v@.len() as int) =~= exprs_view(v@));
    r
}

/// A copy of a list of statements.
pub fn duplicate_stmts(v: &Vec<Box<Statement>>) -> (r: Vec<Box<Statement>>)
    ensures
        stmts_view(r@) == stmts_view(v@),
    decreases v,
{
    let mut r: Vec<Box<Statement>> = Vec::new();
    let mut i: usize = 0;
    while i < v.len()
        invariant
            i <= v@.len(),
            stmts_view(r@) =~= stmts_view(v@).subrange(0, i as int),
        decreases v@.len() - i,
    {
        proof {
            vstd::std_specs::vec::axiom_vec_index_decreases(*v, i as int);
        }
        let s = v[i].duplicate();
        let ghost prev = stmts_view(r@);
        r.push(Box::new(s));
        assert(stmts_view(r@) =~= prev.push(s@));
        i += 1;
    }
    assert(stmts_view(v@).subrange(0, v@.len() as int) =~= stmts_view(v@));
    r
}

/// A copy of a parameter list.
pub fn duplicate_params(v: &Vec<(String, Token)>) -> (r: Vec<(String, Token)>)
    ensures
        params_view(r@) == params_view(v@),
{
    let mut r: Vec<(String, Token)> = Vec::new();
    let mut i: usize = 0;
    while i < v.len()
        invariant
            i <= v@.len(),
            params_view(r@) =~= params_view(v@).subrange(0, i as int),
        decreases v@.len() - i,
    {
        let p = (v[i].0.clone(), v[i].1.duplicate());
        let ghost prev = params_view(r@);
        r.push(p);
        assert(params_view(r@) =~= prev.push((p.0@, p.1)));
        i += 1;
    }
    assert(params_view(v@).subrange(0, v@.len() as int) =~= params_view(v@));
    r
}

impl Expression {
    /// A copy of the expression.
    pub fn duplicate(&self) -> (r: Expression)
        ensures
            r@ == self@,
        decreases self,
    {
        match self {
            Expression::Identifier { name } => Expression::Identifier { name: name.clone() },
            Expression::Integer { value } => Expression::Integer { value: value.clone() },
            Expression::Float { value } => Expression::Float { value: value.clone() },
            Expression::String { value } => Expression::String { value: value.clone() },
            Expression::Boolean { value } => Expression::Boolean { value: value.clone() },
            Expression::Prefix { prefix, value } => Expression::Prefix {
                prefix: prefix.duplicate(),
                value: Box::new(value.duplicate()),
            },
            Expression::Infix { left, operation, right } => Expression::Infix {
                left: Box::new(left.duplicate()),
                operation: operation.duplicate(),
                right: Box::new(right.duplicate()),
            },
            Expression::If { condition, consequence, alternative } => {
                let alt = match alternative {
                    Some(a) => Some(Box::new(a.duplicate())),
                    None => None,
                };
                Expression::If {
                    condition: Box::new(condition.duplicate()),
                    consequence: Box::new(consequence.duplicate()),
                    alternative: alt,
                }
            },
            Expression::While { condition, consequence } => Expression::While {
                condition: Box::new(condition.duplicate()),
                consequence: Box::new(consequence.duplicate()),
            },
            Expression::Call { name, arguments } => {
                let copied = duplicate_exprs(arguments);
                let n = name.clone();
                proof {
                    lemma_call_view(n, copied);
                    lemma_call_view(*name, *arguments);
                }
                Expression::Call { name: n, arguments: copied }
            },
            Expression::Error { value } => Expression::Error { value: Box::new(value.duplicate()) },
            Expression::Assign { assign_to, value } => Expression::Assign {
                assign_to: Box::new(assign_to.duplicate()),
                value: Box::new(value.duplicate()),
            },
            Expression::Array { values } => {
                let copied = duplicate_exprs(values);
                proof {
                    lemma_array_view(copied);
                    lemma_array_view(*values);
                }
                Expression::Array { values: copied }
            },
            Expression::Block { statements } => {
                let copied = duplicate_stmts(statements);
                proof {
                    lemma_block_view(copied);
                    lemma_block_view(*statements);
                }
                Expression::Block { statements: copied }
            },
            Expression::Access { source, index } => Expression::Access {
                source: Box::new(source.duplicate()),
                index: Box::new(index.duplicate()),
            },
        }
    }
}

impl Statement {
    /// A copy of the statement.
    pub fn duplicate(&self) -> (r: Statement)
        ensures
            r@ == self@,
        decreases self,
    {
        match self {
            Statement::Let { name, typee, value } => Statement::Let {
                name: name.clone(),
                typee: match typee {
                    Some(t) => Some(t.duplicate()),
                    None => None,
                },
                value: Box::new(value.duplicate()),
            },
            Statement::Return { value } => Statement::Return { value: Box::new(value.duplicate()) },
            Statement::Expression { value } => Statement::Expression {
                value: Box::new(value.duplicate()),
            },
            Statement::Function { name, parameter, typee, body } => Statement::Function {
                name: name.clone(),
                parameter: duplicate_params(parameter),
                typee: typee.duplicate(),
                body: Box::new(body.duplicate()),
            },
        }
    }
}

} // verus!
