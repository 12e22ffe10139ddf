use vstd::prelude::*;
use crate::ast::{Ast, Expression, Statement, Stm};
use crate::environment::{
    binding_of, deref, hop_limit, lemma_lookup_bounds, missing, terminal, Environment, Mem,
    missing_error,
};
use crate::error::{EErr, EvalError};
use crate::object::{Address, Key, Object, Own, OwnerShip, Val, val_tag};
use crate::operators::{
    obj_outcome,
    evaluate_infix_expression, evaluate_prefix_expression, infix_value, is_float_case,
    prefix_value, FloatArith,
};
use crate::token::Token;

verus! {

/// The value of an integer literal: an optional sign and decimal digits,
/// where the number fits in 128 bits.
pub open spec fn digits_value(s: Seq<char>) -> int
    decreases s.len(),
{
    if s.len() == 0 {
        0
    } else {
        digits_value(s.drop_last()) * 10 + (s.last() as int - '0' as int)
    }
}

pub open spec fn all_digits(s: Seq<char>) -> bool {
    forall|i: int| 0 <= i < s.len() ==> '0' <= #[trigger] s[i] <= '9'
}

pub open spec fn integer_literal(s: Seq<char>) -> Option<i128> {
    let negative = s.len() > 0 && s[0] == '-';
    let body = if s.len() > 0 && (s[0] == '-' || s[0] == '+') {
        s.drop_first()
    } else {
        s
    };
    let v = if negative {
        -digits_value(body)
    } else {
        digits_value(body)
    };
    if body.len() == 0 || !all_digits(body) || v < i128::MIN || v > i128::MAX {
        None
    } else {
        Some(v as i128)
    }
}

/// Relies on `str::parse::<i128>`, which reads an optional `+` or `-` and
/// decimal digits, and fails on any other text and on a number that does not
/// fit in an `i128`.
#[verifier::external_body]
fn parse_i128(text: &String) -> (r: Option<i128>)
    ensures
        r == integer_literal(text@),
{
    text.parse::<i128>().ok()
}

/// The outcome of an evaluation, in the form the specification speaks of.
pub open spec fn eval_outcome(r: Result<(OwnerShip, bool), EvalError>) -> Result<(Own, bool), EErr> {
    match r {
        Ok((o, flag)) => Ok((o@, flag)),
        Err(e) => Err(e@),
    }
}

/// What an evaluation may do to the environment, whether it succeeds or
/// fails: the scopes are those from before; every binding from before is still
/// there under its name (its contents may have been assigned); the heap only
/// grows; the budget only shrinks.
pub open spec fn env_step(e0: &Environment, e1: &Environment) -> bool {
    &&& e1.wf()
    &&& e1.st().scopes() == e0.st().scopes()
    &&& e1.st().bindings().len() >= e0.st().bindings().len()
    &&& forall|i: int|
        0 <= i < e0.st().bindings().len() ==> #[trigger] e1.st().bindings()[i].0
            == e0.st().bindings()[i].0
    &&& e1.hp().cells().len() >= e0.hp().cells().len()
    &&& e1.loops_scoped() == e0.loops_scoped()
    &&& e1.steps_left() <= e0.steps_left()
}

pub proof fn lemma_env_step_trans(a: &Environment, b: &Environment, c: &Environment)
    requires
        env_step(a, b),
        env_step(b, c),
    ensures
        env_step(a, c),
{
    assert forall|i: int| 0 <= i < a.st().bindings().len() implies #[trigger] c.st().bindings()[i].0
        == a.st().bindings()[i].0 by {
        assert(c.st().bindings()[i].0 == b.st().bindings()[i].0);
    }
}

/// `e1` is `e0` with one more scope opened on top, then evaluated in.
pub open spec fn scope_step(e0: &Environment, e1: &Environment) -> bool {
    &&& e1.wf()
    &&& e1.st().scopes() == e0.st().scopes().push(e0.st().bindings().len() as usize)
    &&& e1.st().bindings().len() >= e0.st().bindings().len()
    &&& forall|i: int|
        0 <= i < e0.st().bindings().len() ==> #[trigger] e1.st().bindings()[i].0
            == e0.st().bindings()[i].0
    &&& e1.hp().cells().len() >= e0.hp().cells().len()
    &&& e1.loops_scoped() == e0.loops_scoped()
    &&& e1.steps_left() <= e0.steps_left()
}

pub proof fn lemma_scope_then(e0: &Environment, e1: &Environment, e2: &Environment)
    requires
        scope_step(e0, e1),
        env_step(e1, e2),
    ensures
        scope_step(e0, e2),
{
    assert forall|i: int| 0 <= i < e0.st().bindings().len() implies #[trigger] e2.st().bindings()[i].0
        == e0.st().bindings()[i].0 by {
        assert(e2.st().bindings()[i].0 == e1.st().bindings()[i].0);
    }
}

/// Closing the scope that `scope_step` opened gives back the scopes from before.
pub proof fn lemma_scope_closed(e0: &Environment, e1: &Environment, e2: &Environment)
    requires
        e0.wf(),
        scope_step(e0, e1),
        e2.wf(),
        e2.st().bindings() == e1.st().bindings().subrange(0, e1.st().scopes().last() as int),
        e2.st().scopes() == e1.st().scopes().drop_last(),
        e2.hp() == e1.hp(),
        e2.loops_scoped() == e1.loops_scoped(),
        e2.steps_left() == e1.steps_left(),
    ensures
        env_step(e0, e2),
{
    assert(e1.st().scopes().last() == e0.st().bindings().len());
    assert(e2.st().scopes() =~= e0.st().scopes());
    assert forall|i: int| 0 <= i < e0.st().bindings().len() implies #[trigger] e2.st().bindings()[i].0
        == e0.st().bindings()[i].0 by {
        assert(e2.st().bindings()[i] == e1.st().bindings()[i]);
    }
}

/// Expressions that read the environment and change nothing: literals,
/// identifiers and operators over them.
pub open spec fn is_pure(e: Ast) -> bool
    decreases e,
{
    match e {
        Ast::Identifier(_) | Ast::Integer(_) | Ast::Float(_) | Ast::Str(_) | Ast::Boolean(_) => true,
        Ast::Prefix(_, v) => is_pure(*v),
        Ast::Infix(l, _, r) => is_pure(*l) && is_pure(*r),
        _ => false,
    }
}

pub open spec fn lift(r: Result<Val, EErr>) -> Result<(Own, bool), EErr> {
    match r {
        Ok(v) => Ok((Own::Instance(v), false)),
        Err(e) => Err(e),
    }
}

/// The result of an evaluation, the bindings after it, and the budget left.
pub type Run<A> = Option<(Result<A, EErr>, Mem, nat)>;

/// What evaluating `e` gives in memory `m` with `s` steps of budget, wherever
/// no float operation and no `while` loop takes part; `None` otherwise.
pub open spec fn outcome(m: Mem, s: nat, e: Ast) -> Run<(Own, bool)>
    decreases s, e, 2int,
{
    match e {
        Ast::Identifier(n) => Some(
            (
                if binding_of(m, Key::Name(n)) is Some {
                    Ok((Own::Reference(Key::Name(n)), false))
                } else {
                    Err(EErr::UnknownIdentifier(n))
                },
                m,
                s,
            ),
        ),
        Ast::Integer(text) => Some(
            (
                match integer_literal(text) {
                    Some(v) => Ok((Own::Instance(Val::Integer(v)), false)),
                    None => Err(EErr::CannotConvertInto(text, "Integer"@)),
                },
                m,
                s,
            ),
        ),
        Ast::Float(_) => None,
        Ast::Str(x) => Some((Ok((Own::Instance(Val::Str(x)), false)), m, s)),
        Ast::Boolean(x) => Some((Ok((Own::Instance(Val::Boolean(x == "true"@)), false)), m, s)),
        Ast::Prefix(op, v) => match value_of(m, s, *v) {
            Some((Ok(x), m1, s1)) => if x is Float {
                None
            } else {
                Some((lift(prefix_value(op, x)), m1, s1))
            },
            Some((Err(err), m1, s1)) => Some((Err(err), m1, s1)),
            None => None,
        },
        Ast::Infix(l, op, r) => match value_of(m, s, *l) {
            Some((Ok(lv), m1, s1)) => if s1 <= s {
                match value_of(m1, s1, *r) {
                    Some((Ok(rv), m2, s2)) => if is_float_case(op, lv, rv) {
                        None
                    } else {
                        Some((lift(infix_value(op, lv, rv)), m2, s2))
                    },
                    Some((Err(err), m2, s2)) => Some((Err(err), m2, s2)),
                    None => None,
                }
            } else {
                None
            },
            Some((Err(err), m1, s1)) => Some((Err(err), m1, s1)),
            None => None,
        },
        Ast::Error(v) => match value_of(m, s, *v) {
            Some((Ok(x), m1, s1)) => Some((Ok((Own::Instance(Val::Error(Box::new(x))), false)), m1, s1)),
            Some((Err(err), m1, s1)) => Some((Err(err), m1, s1)),
            None => None,
        },
        Ast::Block(ss) => block_outcome(m, s, ss, Ok((Own::Instance(Val::Null), false))),
        Ast::If(c, b, alt) => match value_of(m, s, *c) {
            Some((Ok(Val::Boolean(t)), m1, s1)) => if s1 <= s {
                if t {
                    scoped(m, outcome(m1, s1, *b))
                } else {
                    match alt {
                        Some(a) => scoped(m, outcome(m1, s1, *a)),
                        None => Some((Ok((Own::Instance(Val::Null), false)), m1.truncate(m.bindings.len() as int), s1)),
                    }
                }
            } else {
                None
            },
            Some((Ok(x), m1, s1)) => Some(
                (Err(EErr::InvalidTypeButFound(Token::BooleanType, x)), m1.truncate(m.bindings.len() as int), s1),
            ),
            Some((Err(err), m1, s1)) => Some((Err(err), m1.truncate(m.bindings.len() as int), s1)),
            None => None,
        },
        Ast::While(_, _) => None,
        Ast::Call(name, args) => match binding_of(m, Key::Name(name)) {
            None => Some((Err(EErr::UnknownIdentifier(name)), m, s)),
            Some(b) => match deref(m, b) {
                Err(err) => Some((Err(err), m, s)),
                Ok(Val::Function(ps, ty, body)) => if ps.len() != args.len() {
                    Some((Err(EErr::InvalidAmountOfArguments(ps.len() as int, args.len() as int)), m, s))
                } else if s == 0 {
                    Some((Err(EErr::StepLimitReached), m, s))
                } else {
                    match arguments_outcome(m, (s - 1) as nat, ps, args) {
                        Some((Ok(()), m1, s1)) => if s1 < s {
                            match outcome(m1, s1, body) {
                                Some((Ok((o, _)), m2, s2)) => Some(
                                    (
                                        match deref(m2, o) {
                                            Ok(v) => if ty is NullType {
                                                Ok((Own::Instance(Val::Null), false))
                                            } else if type_matches(ty, v) {
                                                Ok((Own::Instance(v), false))
                                            } else {
                                                Err(EErr::ExpectedTypeButFound(ty, v))
                                            },
                                            Err(err) => Err(err),
                                        },
                                        m2.truncate(m.bindings.len() as int),
                                        s2,
                                    ),
                                ),
                                Some((Err(err), m2, s2)) => Some(
                                    (Err(err), m2.truncate(m.bindings.len() as int), s2),
                                ),
                                None => None,
                            }
                        } else {
                            None
                        },
                        Some((Err(err), m1, s1)) => Some(
                            (Err(err), m1.truncate(m.bindings.len() as int), s1),
                        ),
                        None => None,
                    }
                },
                Ok(other) => Some((Err(EErr::CannotCall(other)), m, s)),
            },
        },
        Ast::Assign(t, v) => match outcome(m, s, *t) {
            Some((Ok((Own::Reference(k), _)), m1, s1)) => if s1 <= s {
                match terminal(m1, k, hop_limit(m1)) {
                    Err(err) => Some((Err(err), m1, s1)),
                    Ok(tk) => match binding_of(m1, tk) {
                        None => Some((Err(missing(tk)), m1, s1)),
                        Some(b) => match deref(m1, b) {
                            Err(err) => Some((Err(err), m1, s1)),
                            Ok(old) => match outcome(m1, s1, *v) {
                                Some((Ok((o, _)), m2, s2)) => match deref(m2, o) {
                                    Err(err) => Some((Err(err), m2, s2)),
                                    Ok(new) => if val_tag(old) != val_tag(new) {
                                        Some((Err(EErr::CannotAssignDifferentType(new, old)), m2, s2))
                                    } else {
                                        match m2.set(tk, o) {
                                            Some(m3) => Some((Ok((o, false)), m3, s2)),
                                            None => Some((Err(missing(tk)), m2, s2)),
                                        }
                                    },
                                },
                                Some((Err(err), m2, s2)) => Some((Err(err), m2, s2)),
                                None => None,
                            },
                        },
                    },
                }
            } else {
                None
            },
            Some((Ok((Own::Instance(x), _)), m1, s1)) => Some((Err(EErr::CannotAssignTo(x)), m1, s1)),
            Some((Err(err), m1, s1)) => Some((Err(err), m1, s1)),
            None => None,
        },
        Ast::Array(vs) => match elements_outcome(m, s, vs, Seq::empty()) {
            Some((Ok(refs), m1, s1)) => Some(
                (
                    Ok((Own::Reference(Key::Slot(m1.cells.len() as int)), false)),
                    m1.store(Own::Instance(Val::Array(refs))),
                    s1,
                ),
            ),
            Some((Err(err), m1, s1)) => Some((Err(err), m1, s1)),
            None => None,
        },
        Ast::Access(src, idx) => match value_of(m, s, *src) {
            Some((Ok(Val::Array(items)), m1, s1)) => if s1 <= s {
                match value_of(m1, s1, *idx) {
                    Some((Ok(Val::Integer(i)), m2, s2)) => Some(
                        (
                            if i < 0 || i >= items.len() {
                                Err(EErr::IndexOutOfRange(i))
                            } else {
                                Ok((items[i as int], false))
                            },
                            m2,
                            s2,
                        ),
                    ),
                    Some((Ok(other), m2, s2)) => Some((Err(EErr::CannotAccessArrayWith(other)), m2, s2)),
                    Some((Err(err), m2, s2)) => Some((Err(err), m2, s2)),
                    None => None,
                }
            } else {
                None
            },
            Some((Ok(other), m1, s1)) => Some((Err(EErr::CannotArrayAccess(other)), m1, s1)),
            Some((Err(err), m1, s1)) => Some((Err(err), m1, s1)),
            None => None,
        },
    }
}

/// A run inside a scope opened over `m`: the bindings made in it are dropped.
pub open spec fn scoped(m: Mem, run: Run<(Own, bool)>) -> Run<(Own, bool)> {
    match run {
        Some((res, m1, s1)) => Some((res, m1.truncate(m.bindings.len() as int), s1)),
        None => None,
    }
}

/// `e` evaluated and resolved to a value.
pub open spec fn value_of(m: Mem, s: nat, e: Ast) -> Run<Val>
    decreases s, e, 3int,
{
    match outcome(m, s, e) {
        Some((Ok((o, _)), m1, s1)) => Some((deref(m1, o), m1, s1)),
        Some((Err(err), m1, s1)) => Some((Err(err), m1, s1)),
        None => None,
    }
}

/// The arguments of a call, each checked against its parameter and bound.
pub open spec fn arguments_outcome(m: Mem, s: nat, ps: Seq<(Seq<char>, Token)>, args: Seq<Ast>) -> Run<()>
    decreases s, args, 1int,
{
    if args.len() == 0 || ps.len() == 0 {
        Some((Ok(()), m, s))
    } else {
        match value_of(m, s, args[0]) {
            Some((Ok(x), m1, s1)) => if !type_matches(ps[0].1, x) {
                Some((Err(EErr::ExpectedTypeButFound(ps[0].1, x)), m1, s1))
            } else if s1 <= s {
                arguments_outcome(
                    m1.bind(ps[0].0, Own::Instance(x)),
                    s1,
                    ps.subrange(1, ps.len() as int),
                    args.subrange(1, args.len() as int),
                )
            } else {
                None
            },
            Some((Err(err), m1, s1)) => Some((Err(err), m1, s1)),
            None => None,
        }
    }
}

/// The elements of an array literal, each stored in a fresh heap slot; `acc`
/// holds the references to the slots of the elements before.
pub open spec fn elements_outcome(m: Mem, s: nat, vs: Seq<Ast>, acc: Seq<Own>) -> Run<Seq<Own>>
    decreases s, vs, 1int,
{
    if vs.len() == 0 {
        Some((Ok(acc), m, s))
    } else {
        match outcome(m, s, vs[0]) {
            Some((Ok((o, _)), m1, s1)) => if s1 <= s {
                elements_outcome(
                    m1.store(o),
                    s1,
                    vs.subrange(1, vs.len() as int),
                    acc.push(Own::Reference(Key::Slot(m1.cells.len() as int))),
                )
            } else {
                None
            },
            Some((Err(err), m1, s1)) => Some((Err(err), m1, s1)),
            None => None,
        }
    }
}

/// The statements `ss` run in order after a result `last`: the run stops at
/// the first error or the first `return`, and otherwise gives the result of
/// the last statement.
pub open spec fn block_outcome(m: Mem, s: nat, ss: Seq<Stm>, last: Result<(Own, bool), EErr>) -> Run<
    (Own, bool),
>
    decreases s, ss, 1int,
{
    if ss.len() == 0 {
        Some((last, m, s))
    } else {
        match statement_outcome(m, s, ss[0]) {
            Some((Ok((o, flag)), m1, s1)) => if flag {
                Some((Ok((o, true)), m1, s1))
            } else if s1 <= s {
                block_outcome(m1, s1, ss.subrange(1, ss.len() as int), Ok((o, false)))
            } else {
                None
            },
            Some((Err(err), m1, s1)) => Some((Err(err), m1, s1)),
            None => None,
        }
    }
}

/// The type token of a value's variant, for the types a `let` can declare.
pub open spec fn type_token_of(v: Val) -> Option<Token> {
    match v {
        Val::Integer(_) => Some(Token::IntegerType),
        Val::Float(_) => Some(Token::FloatType),
        Val::Str(_) => Some(Token::StringType),
        Val::Boolean(_) => Some(Token::BooleanType),
        Val::Array(_) => Some(Token::ArrayType),
        _ => None,
    }
}

/// The error of a `let` that declares `ty` for the value `x`, if any: error
/// values pass any type.
pub open spec fn let_type_error(ty: Option<Token>, x: Val) -> Option<EErr> {
    match ty {
        None => None,
        Some(t) => if x is Error {
            None
        } else {
            match type_token_of(x) {
                Some(found) => if t.tag() == found.tag() {
                    None
                } else {
                    Some(EErr::InvalidType(t, found))
                },
                None => Some(EErr::InvalidTypeButFound(t, x)),
            }
        },
    }
}

/// What executing the statement `st` gives.
pub open spec fn statement_outcome(m: Mem, s: nat, st: Stm) -> Run<(Own, bool)>
    decreases s, st, 2int,
{
    match st {
        Stm::Let(n, ty, v) => match outcome(m, s, v) {
            Some((Ok((o, _)), m1, s1)) => match deref(m1, o) {
                Ok(x) => match let_type_error(ty, x) {
                    None => Some((Ok((o, false)), m1.bind(n, o), s1)),
                    Some(err) => Some((Err(err), m1, s1)),
                },
                Err(err) => Some((Err(err), m1, s1)),
            },
            Some((Err(err), m1, s1)) => Some((Err(err), m1, s1)),
            None => None,
        },
        Stm::Return(v) => match outcome(m, s, v) {
            Some((Ok((o, _)), m1, s1)) => Some((Ok((o, true)), m1, s1)),
            Some((Err(err), m1, s1)) => Some((Err(err), m1, s1)),
            None => None,
        },
        Stm::Expression(v) => outcome(m, s, v),
        Stm::Function(n, ps, ty, body) => Some(
            (
                Ok((Own::Instance(Val::Null), false)),
                m.bind(n, Own::Instance(Val::Function(ps, ty, body))),
                s,
            ),
        ),
    }
}

/// A run with its return flag cleared where `clear` holds.
pub open spec fn cleared(run: Run<(Own, bool)>, clear: bool) -> Run<(Own, bool)> {
    match run {
        Some((Ok((o, flag)), m1, s1)) => Some((Ok((o, flag && !clear)), m1, s1)),
        other => other,
    }
}

/// What a run gives, checked against an evaluation's result and environment.
pub open spec fn run_matches(run: Run<(Own, bool)>, r: Result<(OwnerShip, bool), EvalError>, env: &Environment) -> bool {
    match run {
        Some((res, m1, s1)) => eval_outcome(r) == res && env.mem() == m1 && env.steps_left() == s1,
        None => true,
    }
}

/// The same, for an evaluation resolved to a value.
pub open spec fn value_matches(run: Run<Val>, r: Result<Object, EvalError>, env: &Environment) -> bool {
    match run {
        Some((res, m1, s1)) => res == obj_outcome(r) && env.mem() == m1 && env.steps_left() == s1,
        None => true,
    }
}

/// The variant that a declared type token asks for.
pub open spec fn type_matches(ty: Token, v: Val) -> bool {
    ||| ty is IntegerType && v is Integer
    ||| ty is FloatType && v is Float
    ||| ty is StringType && v is Str
    ||| ty is BooleanType && v is Boolean
}

fn matches_type(ty: &Token, v: &Object) -> (r: bool)
    ensures
        r == type_matches(*ty, v@),
{
    match v {
        Object::Integer(_) => ty.equal_variant(&Token::IntegerType),
        Object::Float(_) => ty.equal_variant(&Token::FloatType),
        Object::String(_) => ty.equal_variant(&Token::StringType),
        Object::Boolean(_) => ty.equal_variant(&Token::BooleanType),
        _ => false,
    }
}

/// The key of the binding that an assignment through `key` changes: the
/// references are followed until a binding that holds a value of its own.
fn terminal_key(environment: &Environment, key: &Address) -> (r: Result<Address, EvalError>)
    ensures
        match r {
            Ok(k) => terminal(environment.mem(), key@, hop_limit(environment.mem())) == Ok::<Key, EErr>(k@),
            Err(e) => terminal(environment.mem(), key@, hop_limit(environment.mem())) == Err::<Key, EErr>(e@),
        },
{
    let mut current = key.duplicate();
    let mut hops = environment.hops();
    loop
        invariant
            terminal(environment.mem(), key@, hop_limit(environment.mem())) == terminal(
                environment.mem(),
                current@,
                hops as nat,
            ),
        decreases hops,
    {
        let next = match environment.get(&current) {
            None => return Err(missing_error(&current)),
            Some(OwnerShip::Instance(_)) => return Ok(current),
            Some(OwnerShip::Reference(next)) => next.duplicate(),
        };
        if hops == 0 {
            return Err(EvalError::CyclicReference(next));
        }
        current = next;
        hops -= 1;
    }
}

/// Evaluates the arguments of a call in order, checks each against the type
/// of its parameter and binds it, as a value of its own, in the innermost scope.
fn bind_arguments<F: FloatArith>(
    parameters: &Vec<(String, Token)>,
    arguments: &Vec<Box<Expression>>,
    environment: &mut Environment,
) -> (r: Result<(), EvalError>)
    requires
        old(environment).wf(),
        parameters@.len() == arguments@.len(),
    ensures
        env_step(old(environment), final(environment)),
        match arguments_outcome(
            old(environment).mem(),
            old(environment).steps_left(),
            crate::ast::params_view(parameters@),
            crate::ast::exprs_view(arguments@),
        ) {
            Some((res, m1, s1)) => res == (match r {
                Ok(_) => Ok::<(), EErr>(()),
                Err(e) => Err::<(), EErr>(e@),
            }) && final(environment).mem() == m1 && final(environment).steps_left() == s1,
            None => true,
        },
    decreases old(environment).steps_left(), arguments, 0int,
{
    let ghost ps = crate::ast::params_view(parameters@);
    let ghost args = crate::ast::exprs_view(arguments@);
    let ghost whole = arguments_outcome(old(environment).mem(), old(environment).steps_left(), ps, args);
    let mut i: usize = 0;
    assert(ps.subrange(0, ps.len() as int) =~= ps);
    assert(args.subrange(0, args.len() as int) =~= args);
    while i < arguments.len()
        invariant
            old(environment).wf(),
            env_step(old(environment), environment),
            parameters@.len() == arguments@.len(),
            i <= arguments@.len(),
            ps == crate::ast::params_view(parameters@),
            args == crate::ast::exprs_view(arguments@),
            whole == arguments_outcome(old(environment).mem(), old(environment).steps_left(), ps, args),
            whole is Some ==> whole == arguments_outcome(
                environment.mem(),
                environment.steps_left(),
                ps.subrange(i as int, ps.len() as int),
                args.subrange(i as int, args.len() as int),
            ),
        decreases arguments@.len() - i,
    {
        proof {
            vstd::std_specs::vec::axiom_vec_index_decreases(*arguments, i as int);
        }
        let ghost pr = ps.subrange(i as int, ps.len() as int);
        let ghost ar = args.subrange(i as int, args.len() as int);
        assert(pr.subrange(1, pr.len() as int) =~= ps.subrange(i + 1, ps.len() as int));
        assert(ar.subrange(1, ar.len() as int) =~= args.subrange(i + 1, args.len() as int));
        assert(ar[0] == arguments@[i as int]@);
        assert(pr[0] == (parameters@[i as int].0@, parameters@[i as int].1));
        let ghost e0 = *environment;
        let val = match evaluate_value::<F>(&arguments[i], environment) {
            Ok(v) => v,
            Err(err) => {
                proof {
                    lemma_env_step_trans(old(environment), &e0, environment);
                }
                return Err(err);
            },
        };
        proof {
            lemma_env_step_trans(old(environment), &e0, environment);
        }
        if !matches_type(&parameters[i].1, &val) {
            return Err(EvalError::ExpectedTypeButFound(parameters[i].1.duplicate(), val));
        }
        let ghost e1 = *environment;
        environment.bind(parameters[i].0.clone(), OwnerShip::Instance(val));
        assert(env_step(&e1, environment));
        proof {
            lemma_env_step_trans(old(environment), &e1, environment);
        }
        i += 1;
    }
    Ok(())
}

/// Evaluates the elements of an array literal, each into a fresh heap slot,
/// and returns references to those slots.
fn allocate_elements<F: FloatArith>(values: &Vec<Box<Expression>>, environment: &mut Environment) -> (r:
    Result<Vec<OwnerShip>, EvalError>)
    requires
        old(environment).wf(),
    ensures
        env_step(old(environment), final(environment)),
        r matches Ok(v) ==> v@.len() == values@.len(),
        match elements_outcome(
            old(environment).mem(),
            old(environment).steps_left(),
            crate::ast::exprs_view(values@),
            Seq::empty(),
        ) {
            Some((res, m1, s1)) => res == (match r {
                Ok(v) => Ok::<Seq<Own>, EErr>(crate::object::owns_view(v@)),
                Err(e) => Err::<Seq<Own>, EErr>(e@),
            }) && final(environment).mem() == m1 && final(environment).steps_left() == s1,
            None => true,
        },
    decreases old(environment).steps_left(), values, 0int,
{
    let ghost vs = crate::ast::exprs_view(values@);
    let ghost whole = elements_outcome(old(environment).mem(), old(environment).steps_left(), vs, Seq::empty());
    let mut objs: Vec<OwnerShip> = Vec::new();
    let mut i: usize = 0;
    assert(vs.subrange(0, vs.len() as int) =~= vs);
    assert(crate::object::owns_view(objs@) =~= Seq::<Own>::empty());
    while i < values.len()
        invariant
            old(environment).wf(),
            env_step(old(environment), environment),
            i <= values@.len(),
            objs@.len() == i,
            vs == crate::ast::exprs_view(values@),
            whole == elements_outcome(old(environment).mem(), old(environment).steps_left(), vs, Seq::empty()),
            whole is Some ==> whole == elements_outcome(
                environment.mem(),
                environment.steps_left(),
                vs.subrange(i as int, vs.len() as int),
                crate::object::owns_view(objs@),
            ),
        decreases values@.len() - i,
    {
        proof {
            vstd::std_specs::vec::axiom_vec_index_decreases(*values, i as int);
        }
        let ghost vr = vs.subrange(i as int, vs.len() as int);
        assert(vr.subrange(1, vr.len() as int) =~= vs.subrange(i + 1, vs.len() as int));
        assert(vr[0] == values@[i as int]@);
        let ghost e0 = *environment;
        let o = match values[i].evaluate::<F>(environment) {
            Ok((o, _)) => o,
            Err(err) => {
                proof {
                    lemma_env_step_trans(old(environment), &e0, environment);
                }
                return Err(err);
            },
        };
        proof {
            lemma_env_step_trans(old(environment), &e0, environment);
        }
        let ghost e1 = *environment;
        let address = environment.allocate(o);
        assert(env_step(&e1, environment));
        proof {
            lemma_env_step_trans(old(environment), &e1, environment);
        }
        let ghost prev = crate::object::owns_view(objs@);
        objs.push(OwnerShip::Reference(Address::Heap(address)));
        assert(crate::object::owns_view(objs@) =~= prev.push(Own::Reference(Key::Slot(address as int))));
        i += 1;
    }
    Ok(objs)
}

/// The error of a `let` that declares `typee` for `object`, if any.
fn let_type_check(typee: &Option<Token>, object: &Object) -> (r: Option<EvalError>)
    ensures
        match r {
            None => let_type_error(*typee, object@) is None,
            Some(e) => let_type_error(*typee, object@) == Some(e@),
        },
{
    match typee {
        None => None,
        Some(ty) => {
            let found = match object {
                Object::Integer(_) => Token::IntegerType,
                Object::Float(_) => Token::FloatType,
                Object::String(_) => Token::StringType,
                Object::Boolean(_) => Token::BooleanType,
                Object::Array(_) => Token::ArrayType,
                Object::Error(_) => return None,
                _ => return Some(EvalError::InvalidTypeButFound(ty.duplicate(), object.duplicate())),
            };
            if ty.equal_variant(&found) {
                None
            } else {
                Some(EvalError::InvalidType(ty.duplicate(), found))
            }
        },
    }
}

/// Evaluates `e` and resolves the result to a value.
fn evaluate_value<F: FloatArith>(e: &Expression, environment: &mut Environment) -> (r: Result<
    Object,
    EvalError,
>)
    requires
        old(environment).wf(),
    ensures
        env_step(old(environment), final(environment)),
        is_pure(e@) ==> *final(environment) == *old(environment),
        value_matches(value_of(old(environment).mem(), old(environment).steps_left(), e@), r, final(environment)),
    decreases old(environment).steps_left(), e, 3int,
{
    let o = match e.evaluate::<F>(environment) {
        Ok((o, _)) => o,
        Err(err) => return Err(err),
    };
    o.value(environment)
}

/// Evaluates `statements` in order, stopping after the first that returns.
/// The result is the last one evaluated, `Null` for no statement; with
/// `remove_ret` its return flag is cleared.
pub fn evaluate_block<F: FloatArith>(
    statements: &Vec<Box<Statement>>,
    remove_ret: bool,
    environment: &mut Environment,
) -> (r: Result<(OwnerShip, bool), EvalError>)
    requires
        old(environment).wf(),
    ensures
        env_step(old(environment), final(environment)),
        run_matches(
            cleared(
                block_outcome(
                    old(environment).mem(),
                    old(environment).steps_left(),
                    crate::ast::stmts_view(statements@),
                    Ok((Own::Instance(Val::Null), false)),
                ),
                remove_ret,
            ),
            r,
            final(environment),
        ),
        remove_ret ==> (r matches Ok((_, flag)) ==> !flag),
    decreases old(environment).steps_left(), statements, 0int,
{
    let ghost ss = crate::ast::stmts_view(statements@);
    let ghost whole = block_outcome(
        old(environment).mem(),
        old(environment).steps_left(),
        ss,
        Ok((Own::Instance(Val::Null), false)),
    );
    let mut result: (OwnerShip, bool) = (OwnerShip::Instance(Object::Null), false);
    let mut i: usize = 0;
    assert(ss.subrange(0, ss.len() as int) =~= ss);
    while i < statements.len()
        invariant
            old(environment).wf(),
            env_step(old(environment), environment),
            i <= statements@.len(),
            ss == crate::ast::stmts_view(statements@),
            !result.1,
            whole is Some ==> whole == block_outcome(
                environment.mem(),
                environment.steps_left(),
                ss.subrange(i as int, ss.len() as int),
                Ok((result.0@, false)),
            ),
            whole == block_outcome(
                old(environment).mem(),
                old(environment).steps_left(),
                ss,
                Ok((Own::Instance(Val::Null), false)),
            ),
        decreases statements@.len() - i,
    {
        proof {
            vstd::std_specs::vec::axiom_vec_index_decreases(*statements, i as int);
        }
        let ghost before = *environment;
        let ghost rest = ss.subrange(i as int, ss.len() as int);
        assert(rest[0] == statements@[i as int]@);
        assert(rest.subrange(1, rest.len() as int) =~= ss.subrange(i + 1, ss.len() as int));
        let step = statements[i].evaluate::<F>(environment);
        proof {
            lemma_env_step_trans(old(environment), &before, environment);
        }
        result = match step {
            Ok(x) => x,
            Err(err) => return Err(err),
        };
        if result.1 {
            if remove_ret {
                return Ok((result.0, false));
            } else {
                return Ok(result);
            }
        }
        i += 1;
    }
    if remove_ret {
        Ok((result.0, false))
    } else {
        Ok(result)
    }
}

impl Expression {
    /// Evaluates the expression. The result is a binding (an instance, or a
    /// reference to resolve) and whether a `return` is propagating.
    pub fn evaluate<F: FloatArith>(&self, environment: &mut Environment) -> (r: Result<
        (OwnerShip, bool),
        EvalError,
    >)
        requires
            old(environment).wf(),
        ensures
            env_step(old(environment), final(environment)),
            is_pure(self@) ==> *final(environment) == *old(environment),
            run_matches(outcome(old(environment).mem(), old(environment).steps_left(), self@), r, final(environment)),
            self@ is Call ==> (r matches Ok((_, flag)) ==> !flag),
            self@ is Array ==> (r matches Ok((o, _)) ==> o@ matches Own::Reference(Key::Slot(_))),
            self@ is If || self@ is Call ==> final(environment).st().bindings().len()
                == old(environment).st().bindings().len(),
        decreases old(environment).steps_left(), self, 2int,
    {
        match self {
            Expression::Identifier { .. } | Expression::Integer { .. } | Expression::Float { .. }
            | Expression::String { .. } | Expression::Boolean { .. } => self.evaluate_literal::<F>(
                environment,
            ),
            Expression::Prefix { .. } => self.evaluate_prefix::<F>(environment),
            Expression::Infix { .. } => self.evaluate_infix::<F>(environment),
            Expression::Error { .. } => self.evaluate_error::<F>(environment),
            Expression::Block { statements } => {
                proof {
                    crate::ast::lemma_block_view(*statements);
                }
                evaluate_block::<F>(statements, false, environment)
            },
            Expression::If { .. } => self.evaluate_if::<F>(environment),
            Expression::While { .. } => self.evaluate_while::<F>(environment),
            Expression::Call { .. } => self.evaluate_call::<F>(environment),
            Expression::Assign { .. } => self.evaluate_assign::<F>(environment),
            Expression::Array { .. } => self.evaluate_array::<F>(environment),
            Expression::Access { .. } => self.evaluate_access::<F>(environment),
        }
    }

    /// An identifier (a reference to its binding, which must exist) or a literal.
    fn evaluate_literal<F: FloatArith>(&self, environment: &mut Environment) -> (r: Result<
        (OwnerShip, bool),
        EvalError,
    >)
        requires
            old(environment).wf(),
            self is Identifier || self is Integer || self is Float || self is String || self is Boolean,
        ensures
            *final(environment) == *old(environment),
            run_matches(outcome(old(environment).mem(), old(environment).steps_left(), self@), r, final(environment)),
    {
        match self {
            Expression::Identifier { name } => {
                let key = Address::Name(name.clone());
                if environment.get(&key).is_some() {
                    Ok((OwnerShip::Reference(key), false))
                } else {
                    Err(EvalError::UnknownIdentifier(name.clone()))
                }
            },
            Expression::Integer { value } => match parse_i128(value) {
                Some(v) => Ok((OwnerShip::Instance(Object::Integer(v)), false)),
                None => Err(EvalError::CannotConvertInto(value.clone(), String::from_str("Integer"))),
            },
            Expression::Float { value } => match F::parse(value) {
                Some(v) => Ok((OwnerShip::Instance(Object::Float(v)), false)),
                None => Err(EvalError::CannotConvertInto(value.clone(), String::from_str("Float"))),
            },
            Expression::String { value } => Ok(
                (OwnerShip::Instance(Object::String(value.clone())), false),
            ),
            Expression::Boolean { value } => {
                let truth = String::from_str("true");
                Ok((OwnerShip::Instance(Object::Boolean(*value == truth)), false))
            },
            _ => vstd::pervasive::unreached(),
        }
    }

    /// `err(value)`: the value wrapped as an error value.
    fn evaluate_error<F: FloatArith>(&self, environment: &mut Environment) -> (r: Result<
        (OwnerShip, bool),
        EvalError,
    >)
        requires
            old(environment).wf(),
            self is Error,
        ensures
            env_step(old(environment), final(environment)),
            run_matches(outcome(old(environment).mem(), old(environment).steps_left(), self@), r, final(environment)),
        decreases old(environment).steps_left(), self, 1int,
    {
        let value = match self {
            Expression::Error { value } => value,
            _ => return vstd::pervasive::unreached(),
        };
        let object = match evaluate_value::<F>(value, environment) {
            Ok(o) => o,
            Err(err) => return Err(err),
        };
        Ok((OwnerShip::Instance(Object::Error(Box::new(object))), false))
    }

    fn evaluate_prefix<F: FloatArith>(&self, environment: &mut Environment) -> (r: Result<
        (OwnerShip, bool),
        EvalError,
    >)
        requires
            old(environment).wf(),
            self is Prefix,
        ensures
            env_step(old(environment), final(environment)),
            is_pure(self@) ==> *final(environment) == *old(environment),
            run_matches(outcome(old(environment).mem(), old(environment).steps_left(), self@), r, final(environment)),
        decreases old(environment).steps_left(), self, 1int,
    {
        let (prefix, value) = match self {
            Expression::Prefix { prefix, value } => (prefix, value),
            _ => return vstd::pervasive::unreached(),
        };
        assert(self@ == Ast::Prefix(*prefix, Box::new(value@)));
        let object = match evaluate_value::<F>(value, environment) {
            Ok(o) => o,
            Err(err) => return Err(err),
        };
        match evaluate_prefix_expression::<F>(prefix, object) {
            Ok(o) => Ok((OwnerShip::Instance(o), false)),
            Err(err) => Err(err),
        }
    }

    fn evaluate_infix<F: FloatArith>(&self, environment: &mut Environment) -> (r: Result<
        (OwnerShip, bool),
        EvalError,
    >)
        requires
            old(environment).wf(),
            self is Infix,
        ensures
            env_step(old(environment), final(environment)),
            is_pure(self@) ==> *final(environment) == *old(environment),
            run_matches(outcome(old(environment).mem(), old(environment).steps_left(), self@), r, final(environment)),
        decreases old(environment).steps_left(), self, 1int,
    {
        let (left, operation, right) = match self {
            Expression::Infix { left, operation, right } => (left, operation, right),
            _ => return vstd::pervasive::unreached(),
        };
        let ghost e0 = *environment;
        assert(self@ == Ast::Infix(Box::new(left@), *operation, Box::new(right@)));
        let l = match evaluate_value::<F>(left, environment) {
            Ok(o) => o,
            Err(err) => return Err(err),
        };
        let ghost e1 = *environment;
        assert(is_pure(left@) ==> e1 == e0);
        let r = match evaluate_value::<F>(right, environment) {
            Ok(o) => o,
            Err(err) => {
                proof {
                    lemma_env_step_trans(&e0, &e1, environment);
                }
                return Err(err);
            },
        };
        proof {
            lemma_env_step_trans(&e0, &e1, environment);
        }
        match evaluate_infix_expression::<F>(l, r, operation) {
            Ok(o) => Ok((OwnerShip::Instance(o), false)),
            Err(err) => Err(err),
        }
    }

    /// `if`: the condition must be a boolean; the branch taken runs in a scope
    /// of its own; without `else` a false condition gives `Null`.
    fn evaluate_if<F: FloatArith>(&self, environment: &mut Environment) -> (r: Result<
        (OwnerShip, bool),
        EvalError,
    >)
        requires
            old(environment).wf(),
            self is If,
        ensures
            env_step(old(environment), final(environment)),
            run_matches(outcome(old(environment).mem(), old(environment).steps_left(), self@), r, final(environment)),
            final(environment).st().bindings().len() == old(environment).st().bindings().len(),
        decreases old(environment).steps_left(), self, 1int,
    {
        let (condition, consequence, alternative) = match self {
            Expression::If { condition, consequence, alternative } => (
                condition,
                consequence,
                alternative,
            ),
            _ => return vstd::pervasive::unreached(),
        };
        let ghost alt_view = match alternative {
            Some(a) => Some(Box::new(a@)),
            None => None,
        };
        assert(self@ == Ast::If(Box::new(condition@), Box::new(consequence@), alt_view));
        let ghost e0 = *environment;
        environment.open_scope();
        let ghost e1 = *environment;
        assert(scope_step(&e0, &e1));
        let result = match evaluate_value::<F>(condition, environment) {
            Ok(Object::Boolean(truth)) => {
                let ghost e2 = *environment;
                proof {
                    lemma_scope_then(&e0, &e1, &e2);
                }
                if truth {
                    consequence.evaluate::<F>(environment)
                } else {
                    match alternative {
                        Some(a) => a.evaluate::<F>(environment),
                        None => Ok((OwnerShip::Instance(Object::Null), false)),
                    }
                }
            },
            Ok(other) => Err(EvalError::InvalidTypeButFound(Token::BooleanType, other)),
            Err(err) => Err(err),
        };
        proof {
            lemma_scope_then(&e0, &e1, environment);
        }
        let ghost e3 = *environment;
        environment.close_scope();
        proof {
            lemma_scope_closed(&e0, &e3, environment);
        }
        result
    }

    /// `while`: the condition is tested before each iteration; the loop ends
    /// when it is false or when the body returns, and gives the last result
    /// of the body (`Null` where the body never ran). Each iteration spends a
    /// step of the budget.
    fn evaluate_while<F: FloatArith>(&self, environment: &mut Environment) -> (r: Result<
        (OwnerShip, bool),
        EvalError,
    >)
        requires
            old(environment).wf(),
            self is While,
        ensures
            env_step(old(environment), final(environment)),
            run_matches(outcome(old(environment).mem(), old(environment).steps_left(), self@), r, final(environment)),
        decreases old(environment).steps_left(), self, 1int,
    {
        let mut result: (OwnerShip, bool) = (OwnerShip::Instance(Object::Null), false);
        loop
            invariant
                old(environment).wf(),
                env_step(old(environment), environment),
                self is While,
            decreases environment.steps_left(),
        {
            let ghost e0 = *environment;
            let evaluated = match self {
                Expression::While { condition, .. } => evaluate_value::<F>(condition, environment),
                _ => vstd::pervasive::unreached(),
            };
            let truth = match evaluated {
                Ok(Object::Boolean(b)) => b,
                Ok(other) => {
                    proof {
                        lemma_env_step_trans(old(environment), &e0, environment);
                    }
                    return Err(EvalError::InvalidTypeButFound(Token::BooleanType, other));
                },
                Err(err) => {
                    proof {
                        lemma_env_step_trans(old(environment), &e0, environment);
                    }
                    return Err(err);
                },
            };
            proof {
                lemma_env_step_trans(old(environment), &e0, environment);
            }
            if !truth {
                return Ok(result);
            }
            if !environment.take_step() {
                return Err(EvalError::StepLimitReached);
            }
            let ghost e1 = *environment;
            assert(env_step(old(environment), &e1));
            let scoped = environment.loop_scopes();
            let body = if scoped {
                environment.open_scope();
                let ghost e2 = *environment;
                assert(scope_step(&e1, &e2));
                let body = match self {
                    Expression::While { consequence, .. } => consequence.evaluate::<F>(environment),
                    _ => vstd::pervasive::unreached(),
                };
                proof {
                    lemma_scope_then(&e1, &e2, environment);
                }
                let ghost e3 = *environment;
                environment.close_scope();
                proof {
                    lemma_scope_closed(&e1, &e3, environment);
                }
                body
            } else {
                match self {
                    Expression::While { consequence, .. } => consequence.evaluate::<F>(environment),
                    _ => vstd::pervasive::unreached(),
                }
            };
            proof {
                lemma_env_step_trans(old(environment), &e1, environment);
            }
            result = match body {
                Ok(x) => x,
                Err(err) => return Err(err),
            };
            if result.1 {
                return Ok(result);
            }
        }
    }

    /// A call: the callee must be a function taking as many arguments as
    /// given. The arguments are bound in a new scope, the body runs there, and
    /// its value must be of the declared return type (a function declared to
    /// return null gives `Null`). The scope is closed on every path, and a
    /// `return` in the body stops at the call. Each call spends a step.
    fn evaluate_call<F: FloatArith>(&self, environment: &mut Environment) -> (r: Result<
        (OwnerShip, bool),
        EvalError,
    >)
        requires
            old(environment).wf(),
            self is Call,
        ensures
            env_step(old(environment), final(environment)),
            final(environment).st().bindings().len() == old(environment).st().bindings().len(),
            run_matches(outcome(old(environment).mem(), old(environment).steps_left(), self@), r, final(environment)),
            r matches Ok((_, flag)) ==> !flag,
        decreases old(environment).steps_left(), self, 1int,
    {
        let (name, arguments) = match self {
            Expression::Call { name, arguments } => (name, arguments),
            _ => return vstd::pervasive::unreached(),
        };
        proof {
            crate::ast::lemma_call_view(*name, *arguments);
        }
        let function = match environment.get(&Address::Name(name.clone())) {
            Some(o) => match o.value(environment) {
                Ok(v) => v,
                Err(err) => return Err(err),
            },
            None => return Err(EvalError::UnknownIdentifier(name.clone())),
        };
        let (parameters, typee, body) = match function {
            Object::Function { parameters, typee, body } => (parameters, typee, body),
            other => return Err(EvalError::CannotCall(other)),
        };
        if parameters.len() != arguments.len() {
            return Err(EvalError::InvalidAmountOfArguments(parameters.len(), arguments.len()));
        }
        let ghost e0 = *environment;
        if !environment.take_step() {
            return Err(EvalError::StepLimitReached);
        }
        let ghost e1 = *environment;
        environment.open_scope();
        let ghost e2 = *environment;
        assert(scope_step(&e1, &e2));
        let outcome: Result<Object, EvalError> = match bind_arguments::<F>(
            &parameters,
            arguments,
            environment,
        ) {
            Err(err) => Err(err),
            Ok(()) => {
                let ghost e3 = *environment;
                match body.evaluate::<F>(environment) {
                    Err(err) => {
                        proof {
                            lemma_env_step_trans(&e2, &e3, environment);
                        }
                        Err(err)
                    },
                    Ok((o, _)) => {
                        proof {
                            lemma_env_step_trans(&e2, &e3, environment);
                        }
                        match o.value(environment) {
                            Err(err) => Err(err),
                            Ok(v) => {
                                if typee.equal_variant(&Token::NullType) {
                                    Ok(Object::Null)
                                } else if matches_type(&typee, &v) {
                                    Ok(v)
                                } else {
                                    Err(EvalError::ExpectedTypeButFound(typee, v))
                                }
                            },
                        }
                    },
                }
            },
        };
        proof {
            lemma_scope_then(&e1, &e2, environment);
        }
        let ghost e4 = *environment;
        environment.close_scope();
        proof {
            lemma_scope_closed(&e1, &e4, environment);
            lemma_env_step_trans(&e0, &e1, environment);
        }
        match outcome {
            Ok(v) => Ok((OwnerShip::Instance(v), false)),
            Err(err) => Err(err),
        }
    }

    /// `target = value`: the target must evaluate to a reference; the chain of
    /// references is followed to the binding that holds a value, and that
    /// binding takes the new binding, whose value must be of the same type as
    /// the old one.
    fn evaluate_assign<F: FloatArith>(&self, environment: &mut Environment) -> (r: Result<
        (OwnerShip, bool),
        EvalError,
    >)
        requires
            old(environment).wf(),
            self is Assign,
        ensures
            env_step(old(environment), final(environment)),
            run_matches(outcome(old(environment).mem(), old(environment).steps_left(), self@), r, final(environment)),
            r matches Ok((_, flag)) ==> !flag,
        decreases old(environment).steps_left(), self, 1int,
    {
        let (assign_to, value) = match self {
            Expression::Assign { assign_to, value } => (assign_to, value),
            _ => return vstd::pervasive::unreached(),
        };
        let ghost e0 = *environment;
        assert(self@ == Ast::Assign(Box::new(assign_to@), Box::new(value@)));
        let target = match assign_to.evaluate::<F>(environment) {
            Ok((o, _)) => o,
            Err(err) => return Err(err),
        };
        let key = match target {
            OwnerShip::Reference(k) => k,
            OwnerShip::Instance(o) => return Err(EvalError::CannotAssignTo(o)),
        };
        let key = match terminal_key(environment, &key) {
            Ok(k) => k,
            Err(err) => return Err(err),
        };
        let old_obj = match environment.get(&key) {
            Some(o) => match o.value(environment) {
                Ok(v) => v,
                Err(err) => return Err(err),
            },
            None => return Err(missing_error(&key)),
        };
        let ghost e1 = *environment;
        let value_ownership = match value.evaluate::<F>(environment) {
            Ok((o, _)) => o,
            Err(err) => {
                proof {
                    lemma_env_step_trans(&e0, &e1, environment);
                }
                return Err(err);
            },
        };
        proof {
            lemma_env_step_trans(&e0, &e1, environment);
        }
        let new_obj = match value_ownership.value(environment) {
            Ok(v) => v,
            Err(err) => return Err(err),
        };
        if !old_obj.equal_variant(&new_obj) {
            return Err(EvalError::CannotAssignDifferentType(new_obj, old_obj));
        }
        let ghost e2 = *environment;
        proof {
            if let Key::Name(n) = key@ {
                lemma_lookup_bounds(e2.st().bindings(), n);
            }
        }
        let stored = value_ownership.duplicate();
        if !environment.set(&key, stored) {
            return Err(missing_error(&key));
        }
        assert(env_step(&e2, environment));
        proof {
            lemma_env_step_trans(&e0, &e2, environment);
        }
        Ok((value_ownership, false))
    }

    /// An array literal: each element goes to a fresh heap slot, the array of
    /// references to them to one more, and the result refers to that slot.
    fn evaluate_array<F: FloatArith>(&self, environment: &mut Environment) -> (r: Result<
        (OwnerShip, bool),
        EvalError,
    >)
        requires
            old(environment).wf(),
            self is Array,
        ensures
            env_step(old(environment), final(environment)),
            run_matches(outcome(old(environment).mem(), old(environment).steps_left(), self@), r, final(environment)),
            r matches Ok((o, flag)) ==> !flag && o@ matches Own::Reference(Key::Slot(_)),
        decreases old(environment).steps_left(), self, 1int,
    {
        let values = match self {
            Expression::Array { values } => values,
            _ => return vstd::pervasive::unreached(),
        };
        let ghost e0 = *environment;
        proof {
            crate::ast::lemma_array_view(*values);
        }
        let objs = match allocate_elements::<F>(values, environment) {
            Ok(v) => v,
            Err(err) => return Err(err),
        };
        proof {
            crate::object::lemma_array_object_view(objs);
        }
        let ghost e1 = *environment;
        let address = environment.allocate(OwnerShip::Instance(Object::Array(objs)));
        assert(env_step(&e1, environment));
        proof {
            lemma_env_step_trans(&e0, &e1, environment);
        }
        Ok((OwnerShip::Reference(Address::Heap(address)), false))
    }

    /// `source[index]`: the source must be an array and the index an integer
    /// within its bounds; the result is the element's binding itself.
    fn evaluate_access<F: FloatArith>(&self, environment: &mut Environment) -> (r: Result<
        (OwnerShip, bool),
        EvalError,
    >)
        requires
            old(environment).wf(),
            self is Access,
        ensures
            env_step(old(environment), final(environment)),
            run_matches(outcome(old(environment).mem(), old(environment).steps_left(), self@), r, final(environment)),
            r matches Ok((_, flag)) ==> !flag,
        decreases old(environment).steps_left(), self, 1int,
    {
        let (source, index) = match self {
            Expression::Access { source, index } => (source, index),
            _ => return vstd::pervasive::unreached(),
        };
        let ghost e0 = *environment;
        assert(self@ == Ast::Access(Box::new(source@), Box::new(index@)));
        let items = match evaluate_value::<F>(source, environment) {
            Ok(Object::Array(v)) => {
                proof {
                    crate::object::lemma_array_object_view(v);
                }
                v
            },
            Ok(other) => return Err(EvalError::CannotArrayAccess(other)),
            Err(err) => return Err(err),
        };
        let ghost e1 = *environment;
        let position = match evaluate_value::<F>(index, environment) {
            Ok(Object::Integer(i)) => i,
            Ok(other) => {
                proof {
                    lemma_env_step_trans(&e0, &e1, environment);
                }
                return Err(EvalError::CannotAccessArrayWith(other));
            },
            Err(err) => {
                proof {
                    lemma_env_step_trans(&e0, &e1, environment);
                }
                return Err(err);
            },
        };
        proof {
            lemma_env_step_trans(&e0, &e1, environment);
        }
        if position < 0 || position >= items.len() as i128 {
            return Err(EvalError::IndexOutOfRange(position));
        }
        Ok((items[position as usize].duplicate(), false))
    }
}

impl Statement {
    /// Executes the statement. `let` binds its name in the innermost scope
    /// (after checking a declared type; error values pass any type); `ret`
    /// sets the return flag; a function declaration binds the function.
    pub fn evaluate<F: FloatArith>(&self, environment: &mut Environment) -> (r: Result<
        (OwnerShip, bool),
        EvalError,
    >)
        requires
            old(environment).wf(),
        ensures
            env_step(old(environment), final(environment)),
            run_matches(
                statement_outcome(old(environment).mem(), old(environment).steps_left(), self@),
                r,
                final(environment),
            ),
            self@ is Return ==> (r matches Ok((_, flag)) ==> flag),
            self@ is Let || self@ is Function ==> (r matches Ok((_, flag)) ==> !flag),
        decreases old(environment).steps_left(), self, 2int,
    {
        match self {
            Statement::Let { .. } => self.evaluate_let::<F>(environment),
            Statement::Return { value } => match value.evaluate::<F>(environment) {
                Ok((o, _)) => Ok((o, true)),
                Err(err) => Err(err),
            },
            Statement::Expression { value } => value.evaluate::<F>(environment),
            Statement::Function { name, parameter, typee, body } => {
                let function = Object::Function {
                    parameters: crate::ast::duplicate_params(parameter),
                    typee: typee.duplicate(),
                    body: Box::new(body.duplicate()),
                };
                environment.bind(name.clone(), OwnerShip::Instance(function));
                Ok((OwnerShip::Instance(Object::Null), false))
            },
        }
    }

    /// `let`: the value is bound, without being resolved, in the innermost
    /// scope once its resolved value passes the declared type.
    fn evaluate_let<F: FloatArith>(&self, environment: &mut Environment) -> (r: Result<
        (OwnerShip, bool),
        EvalError,
    >)
        requires
            old(environment).wf(),
            self is Let,
        ensures
            env_step(old(environment), final(environment)),
            run_matches(
                statement_outcome(old(environment).mem(), old(environment).steps_left(), self@),
                r,
                final(environment),
            ),
            r matches Ok((_, flag)) ==> !flag,
        decreases old(environment).steps_left(), self, 1int,
    {
        let (name, typee, value) = match self {
            Statement::Let { name, typee, value } => (name, typee, value),
            _ => return vstd::pervasive::unreached(),
        };
        let ghost e0 = *environment;
        assert(self@ == Stm::Let(name@, *typee, value@));
        let value_ownership = match value.evaluate::<F>(environment) {
            Ok((o, _)) => o,
            Err(err) => return Err(err),
        };
        let object = match value_ownership.value(environment) {
            Ok(o) => o,
            Err(err) => return Err(err),
        };
        if let Some(err) = let_type_check(typee, &object) {
            return Err(err);
        }
        let ghost e1 = *environment;
        let stored = value_ownership.duplicate();
        environment.bind(name.clone(), stored);
        assert(env_step(&e1, environment));
        proof {
            lemma_env_step_trans(&e0, &e1, environment);
        }
        Ok((value_ownership, false))
    }
}

/// What running the statements `ss` gives after the values `acc`: the
/// resolved value of each statement, or the first error.
pub open spec fn program_run(m: Mem, s: nat, ss: Seq<Stm>, acc: Seq<Val>) -> Run<Seq<Val>>
    decreases ss.len(),
{
    if ss.len() == 0 {
        Some((Ok(acc), m, s))
    } else {
        match statement_outcome(m, s, ss[0]) {
            Some((Ok((o, _)), m1, s1)) => match deref(m1, o) {
                Ok(v) => program_run(m1, s1, ss.subrange(1, ss.len() as int), acc.push(v)),
                Err(err) => Some((Err(err), m1, s1)),
            },
            Some((Err(err), m1, s1)) => Some((Err(err), m1, s1)),
            None => None,
        }
    }
}

/// The views of a list of values.
pub open spec fn objects_view(s: Seq<Object>) -> Seq<Val> {
    Seq::new(s.len(), |i: int| s[i]@)
}

/// Runs a parsed program statement by statement.
pub struct Evaluator {
    statements: Vec<Statement>,
}

/// The views of the statements of a program.
pub open spec fn statements_view(s: Seq<Statement>) -> Seq<crate::ast::Stm> {
    Seq::new(s.len(), |i: int| s[i]@)
}

impl Evaluator {
    pub closed spec fn program(&self) -> Seq<crate::ast::Stm> {
        statements_view(self.statements@)
    }

    pub fn new(statements: Vec<Statement>) -> (r: Self)
        ensures
            r.program() == statements_view(statements@),
    {
        Evaluator { statements }
    }

    /// Evaluates the statements in order against `environment`, which keeps
    /// what they bind. Gives the value of each statement, or the first error;
    /// the statements before the failing one keep their effects.
    pub fn evaluate<F: FloatArith>(&self, environment: &mut Environment) -> (r: Result<
        Vec<Object>,
        EvalError,
    >)
        requires
            old(environment).wf(),
        ensures
            env_step(old(environment), final(environment)),
            r matches Ok(v) ==> v@.len() == self.program().len(),
            match program_run(
                old(environment).mem(),
                old(environment).steps_left(),
                self.program(),
                Seq::empty(),
            ) {
                Some((res, m1, s1)) => res == (match r {
                    Ok(v) => Ok::<Seq<Val>, EErr>(objects_view(v@)),
                    Err(e) => Err::<Seq<Val>, EErr>(e@),
                }) && final(environment).mem() == m1 && final(environment).steps_left() == s1,
                None => true,
            },
    {
        let ghost ss = self.program();
        let ghost whole = program_run(old(environment).mem(), old(environment).steps_left(), ss, Seq::empty());
        let mut results: Vec<Object> = Vec::new();
        let mut i: usize = 0;
        assert(ss.subrange(0, ss.len() as int) =~= ss);
        assert(objects_view(results@) =~= Seq::<Val>::empty());
        while i < self.statements.len()
            invariant
                old(environment).wf(),
                env_step(old(environment), environment),
                i <= self.statements@.len(),
                results@.len() == i,
                ss == self.program(),
                ss == statements_view(self.statements@),
                whole == program_run(old(environment).mem(), old(environment).steps_left(), ss, Seq::empty()),
                whole is Some ==> whole == program_run(
                    environment.mem(),
                    environment.steps_left(),
                    ss.subrange(i as int, ss.len() as int),
                    objects_view(results@),
                ),
            decreases self.statements@.len() - i,
        {
            let ghost e0 = *environment;
            let ghost rest = ss.subrange(i as int, ss.len() as int);
            assert(rest[0] == self.statements@[i as int]@);
            assert(rest.subrange(1, rest.len() as int) =~= ss.subrange(i + 1, ss.len() as int));
            let value = match self.statements[i].evaluate::<F>(environment) {
                Ok((o, _)) => o.value(environment),
                Err(err) => Err(err),
            };
            proof {
                lemma_env_step_trans(old(environment), &e0, environment);
            }
            match value {
                Ok(v) => {
                    let ghost prev = objects_view(results@);
                    let ghost vv = v@;
                    results.push(v);
                    assert(objects_view(results@) =~= prev.push(vv));
                },
                Err(err) => return Err(err),
            }
            i += 1;
        }
        assert(ss.subrange(ss.len() as int, ss.len() as int) =~= Seq::<Stm>::empty());
        Ok(results)
    }
}

} // verus!
