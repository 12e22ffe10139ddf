//! Properties that relate several calls of the library.
use vstd::prelude::*;
use crate::ast::{Ast, Expression, Statement};
use crate::environment::{deref, lookup, Environment, Stack};
use crate::error::{EvalError, PErr, ParseError};
use crate::ast::Stm;
use crate::environment::{binding_of, hop_limit, resolve, terminal, Mem};
use crate::error::EErr;
use crate::evaluator::{
    eval_outcome, integer_literal, is_pure, outcome, run_matches, statement_outcome,
};
use crate::object::{Key, Val};
use crate::grammar::{is_infix_operator, spec_climb, spec_expr, spec_infix, spec_program};
use crate::object::{Own, OwnerShip};
use crate::parser::program_outcome;
use crate::token::{precedence_of, Precedences, Token};

verus! {

/// Parsing is deterministic: two parses of the same tokens both succeed with
/// the same statements, or both fail with the same error.
pub proof fn lemma_parse_deterministic(
    ts: Seq<Token>,
    r1: Result<Vec<Statement>, ParseError>,
    r2: Result<Vec<Statement>, ParseError>,
)
    requires
        program_outcome(r1) == spec_program(ts),
        program_outcome(r2) == spec_program(ts),
    ensures
        program_outcome(r1) == program_outcome(r2),
        r1 is Ok <==> r2 is Ok,
{
}

/// The tokens of `a o1 b o2 c` with integer literals `a`, `b`, `c`.
pub open spec fn chain(a: String, o1: Token, b: String, o2: Token, c: String) -> Seq<Token> {
    seq![Token::Integer(a), o1, Token::Integer(b), o2, Token::Integer(c)]
}

/// In `a o1 b o2 c`, an operator `o2` that binds tighter than `o1` takes `b`
/// as its left operand; otherwise the chain groups to the left.
pub proof fn lemma_precedence(a: String, o1: Token, b: String, o2: Token, c: String)
    requires
        is_infix_operator(o1),
        is_infix_operator(o2),
    ensures
        precedence_of(o1).rank() < precedence_of(o2).rank() ==> spec_expr(
            chain(a, o1, b, o2, c),
            Precedences::Lowest,
        ) == Ok::<(Ast, Seq<Token>), PErr>(
            (
                Ast::Infix(
                    Box::new(Ast::Integer(a@)),
                    o1,
                    Box::new(Ast::Infix(Box::new(Ast::Integer(b@)), o2, Box::new(Ast::Integer(c@)))),
                ),
                Seq::empty(),
            ),
        ),
        precedence_of(o1).rank() >= precedence_of(o2).rank() ==> spec_expr(
            chain(a, o1, b, o2, c),
            Precedences::Lowest,
        ) == Ok::<(Ast, Seq<Token>), PErr>(
            (
                Ast::Infix(
                    Box::new(Ast::Infix(Box::new(Ast::Integer(a@)), o1, Box::new(Ast::Integer(b@)))),
                    o2,
                    Box::new(Ast::Integer(c@)),
                ),
                Seq::empty(),
            ),
        ),
{
    let ts = chain(a, o1, b, o2, c);
    let t1 = ts.drop_first();
    let t2 = t1.drop_first();
    let t3 = t2.drop_first();
    let t4 = t3.drop_first();
    let t5 = t4.drop_first();
    assert(t1 =~= seq![o1, Token::Integer(b), o2, Token::Integer(c)]);
    assert(t2 =~= seq![Token::Integer(b), o2, Token::Integer(c)]);
    assert(t3 =~= seq![o2, Token::Integer(c)]);
    assert(t4 =~= seq![Token::Integer(c)]);
    assert(t5 =~= Seq::<Token>::empty());
    let ea = Ast::Integer(a@);
    let eb = Ast::Integer(b@);
    let ec = Ast::Integer(c@);
    let p1 = precedence_of(o1);
    let p2 = precedence_of(o2);
    assert(spec_climb(ec, t5, p2) == Ok::<(Ast, Seq<Token>), PErr>((ec, t5)));
    assert(spec_expr(t4, p2) == spec_climb(ec, t5, p2));
    assert(spec_infix(eb, o2, t4) == Ok::<(Ast, Seq<Token>), PErr>(
        (Ast::Infix(Box::new(eb), o2, Box::new(ec)), t5),
    ));
    if p1.rank() < p2.rank() {
        let bc = Ast::Infix(Box::new(eb), o2, Box::new(ec));
        assert(spec_climb(bc, t5, p1) == Ok::<(Ast, Seq<Token>), PErr>((bc, t5)));
        assert(spec_climb(eb, t3, p1) == spec_climb(bc, t5, p1));
        assert(spec_expr(t2, p1) == spec_climb(eb, t3, p1));
        let abc = Ast::Infix(Box::new(ea), o1, Box::new(bc));
        assert(spec_infix(ea, o1, t2) == Ok::<(Ast, Seq<Token>), PErr>((abc, t5)));
        assert(spec_climb(abc, t5, Precedences::Lowest) == Ok::<
            (Ast, Seq<Token>),
            PErr,
        >((abc, t5)));
        assert(spec_climb(ea, t1, Precedences::Lowest) == spec_climb(
            abc,
            t5,
            Precedences::Lowest,
        ));
    } else {
        let ab = Ast::Infix(Box::new(ea), o1, Box::new(eb));
        assert(spec_climb(eb, t3, p1) == Ok::<(Ast, Seq<Token>), PErr>((eb, t3)));
        assert(spec_expr(t2, p1) == spec_climb(eb, t3, p1));
        assert(spec_infix(ea, o1, t2) == Ok::<(Ast, Seq<Token>), PErr>((ab, t3)));
        let abc = Ast::Infix(Box::new(ab), o2, Box::new(ec));
        assert(spec_infix(ab, o2, t4) == Ok::<(Ast, Seq<Token>), PErr>((abc, t5)));
        assert(spec_climb(abc, t5, Precedences::Lowest) == Ok::<
            (Ast, Seq<Token>),
            PErr,
        >((abc, t5)));
        assert(spec_climb(ab, t3, Precedences::Lowest) == spec_climb(
            abc,
            t5,
            Precedences::Lowest,
        ));
        assert(spec_climb(ea, t1, Precedences::Lowest) == spec_climb(
            ab,
            t3,
            Precedences::Lowest,
        ));
    }
}

/// Evaluating a pure expression (literals, identifiers and operators over
/// them) leaves the environment as it was, so evaluating it a second time gives
/// the same outcome and, on success, the same value. Shown for the expressions
/// in which no float operation takes part: for those the outcome is a function
/// of the environment.
pub proof fn lemma_pure_reevaluation(
    e: Expression,
    env0: Environment,
    env1: Environment,
    env2: Environment,
    r1: Result<(OwnerShip, bool), EvalError>,
    r2: Result<(OwnerShip, bool), EvalError>,
)
    requires
        is_pure(e@),
        outcome(env0.mem(), env0.steps_left(), e@) is Some,
        env1 == env0,
        run_matches(outcome(env0.mem(), env0.steps_left(), e@), r1, &env1),
        env2 == env1,
        run_matches(outcome(env1.mem(), env1.steps_left(), e@), r2, &env2),
    ensures
        eval_outcome(r1) == eval_outcome(r2),
        env2 == env0,
        match (r1, r2) {
            (Ok((o1, _)), Ok((o2, _))) => deref(env1.mem(), o1@) == deref(env2.mem(), o2@),
            _ => true,
        },
{
}

/// Shadowing: a binding made in an inner scope hides an outer one of the same
/// name while the scope lives, and once the scope is dropped the stack is as it
/// was, so the name finds the outer binding again. `s1` is `s0` after
/// `create_scope`, `s2` is `s1` after `add(name, v)`, and `s3` is `s2` after
/// `drop_scope`.
pub proof fn lemma_shadowing(s0: Stack, s1: Stack, s2: Stack, s3: Stack, name: Seq<char>, v: Own)
    requires
        s0.wf(),
        s1.bindings() == s0.bindings(),
        s1.scopes() == s0.scopes().push(s0.bindings().len() as usize),
        s2.bindings() == s1.bindings().push((name, v)),
        s2.scopes() == s1.scopes(),
        s3.bindings() == s2.bindings().subrange(0, s2.scopes().last() as int),
        s3.scopes() == s2.scopes().drop_last(),
    ensures
        lookup(s2.bindings(), name) == Some(s0.bindings().len() as int),
        s2.bindings()[s0.bindings().len() as int].1 == v,
        s3.bindings() == s0.bindings(),
        s3.scopes() == s0.scopes(),
        lookup(s3.bindings(), name) == lookup(s0.bindings(), name),
{
    assert(s2.bindings().last() == (name, v));
    assert(s3.bindings() =~= s0.bindings());
    assert(s3.scopes() =~= s0.scopes());
}

/// Round trip: `let n: int = text;` binds `n` to the integer that `text`
/// spells, and reading `n` afterwards gives a reference to that binding,
/// which resolves to that integer.
pub proof fn lemma_let_round_trip(m: Mem, s: nat, n: Seq<char>, text: Seq<char>)
    requires
        integer_literal(text) is Some,
    ensures
        ({
            let v = integer_literal(text)->Some_0;
            let m1 = m.bind(n, Own::Instance(Val::Integer(v)));
            &&& statement_outcome(m, s, Stm::Let(n, Some(Token::IntegerType), Ast::Integer(text)))
                == Some::<(Result<(Own, bool), EErr>, Mem, nat)>(
                (Ok((Own::Instance(Val::Integer(v)), false)), m1, s),
            )
            &&& outcome(m1, s, Ast::Identifier(n)) == Some::<(Result<(Own, bool), EErr>, Mem, nat)>(
                (Ok((Own::Reference(Key::Name(n)), false)), m1, s),
            )
            &&& deref(m1, Own::Reference(Key::Name(n))) == Ok::<Val, EErr>(Val::Integer(v))
        }),
{
    let v = integer_literal(text)->Some_0;
    let m1 = m.bind(n, Own::Instance(Val::Integer(v)));
    assert(m1.bindings.last().0 == n);
    assert(lookup(m1.bindings, n) == Some(m.bindings.len() as int));
    assert(binding_of(m1, Key::Name(n)) == Some(Own::Instance(Val::Integer(v))));
    assert(hop_limit(m1) > 0);
    assert(resolve(m1, Own::Instance(Val::Integer(v)), (hop_limit(m1) - 1) as nat) == Ok::<Val, EErr>(
        Val::Integer(v),
    ));
}

/// Type enforcement: after `let n: int = text;`, assigning a string to `n`
/// fails with a type mismatch and leaves the bindings as they were, so `n`
/// still holds the integer.
#[verifier::rlimit(60)]
pub proof fn lemma_assignment_keeps_type(m: Mem, s: nat, n: Seq<char>, text: Seq<char>, x: Seq<char>)
    requires
        integer_literal(text) is Some,
    ensures
        ({
            let v = integer_literal(text)->Some_0;
            let m1 = m.bind(n, Own::Instance(Val::Integer(v)));
            &&& outcome(m1, s, Ast::Assign(Box::new(Ast::Identifier(n)), Box::new(Ast::Str(x))))
                == Some::<(Result<(Own, bool), EErr>, Mem, nat)>(
                (Err(EErr::CannotAssignDifferentType(Val::Str(x), Val::Integer(v))), m1, s),
            )
            &&& deref(m1, Own::Reference(Key::Name(n))) == Ok::<Val, EErr>(Val::Integer(v))
        }),
{
    let v = integer_literal(text)->Some_0;
    let m1 = m.bind(n, Own::Instance(Val::Integer(v)));
    lemma_let_round_trip(m, s, n, text);
    assert(binding_of(m1, Key::Name(n)) == Some(Own::Instance(Val::Integer(v))));
    assert(terminal(m1, Key::Name(n), hop_limit(m1)) == Ok::<Key, EErr>(Key::Name(n)));
    assert(deref(m1, Own::Instance(Val::Integer(v))) == Ok::<Val, EErr>(Val::Integer(v)));
    assert(deref(m1, Own::Instance(Val::Str(x))) == Ok::<Val, EErr>(Val::Str(x)));
    assert(outcome(m1, s, Ast::Str(x)) == Some::<(Result<(Own, bool), EErr>, Mem, nat)>(
        (Ok((Own::Instance(Val::Str(x)), false)), m1, s),
    ));
    assert(outcome(m1, s, Ast::Identifier(n)) == Some::<(Result<(Own, bool), EErr>, Mem, nat)>(
        (Ok((Own::Reference(Key::Name(n)), false)), m1, s),
    ));
}

} // verus!
