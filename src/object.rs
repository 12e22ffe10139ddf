use vstd::prelude::*;
use crate::ast::{duplicate_params, params_view, Ast, Expression};
use crate::token::Token;

verus! {

broadcast use vstd::std_specs::vec::group_vec_axioms;

/// Where a reference points: a named binding of the stack, or a slot of the
/// heap. The two key spaces are disjoint.
#[derive(Debug, PartialEq, Eq)]
pub enum Address {
    Name(String),
    Heap(usize),
}

/// A binding holds either a value of its own or a reference to resolve.
#[derive(Debug, PartialEq)]
pub enum OwnerShip {
    Reference(Address),
    Instance(Object),
}

/// A value at run time. Floats are held as the bits of an IEEE-754 binary64.
#[derive(Debug, PartialEq)]
pub enum Object {
    Integer(i128),
    Float(u64),
    String(String),
    Boolean(bool),
    Null,
    Array(Vec<OwnerShip>),
    Error(Box<Object>),
    Function { parameters: Vec<(String, Token)>, typee: Token, body: Box<Expression> },
}

/// The mathematical form of an address.
pub enum Key {
    Name(Seq<char>),
    Slot(int),
}

/// The mathematical form of a binding.
pub enum Own {
    Reference(Key),
    Instance(Val),
}

/// The mathematical form of a value.
pub enum Val {
    Integer(i128),
    Float(u64),
    Str(Seq<char>),
    Boolean(bool),
    Null,
    Array(Seq<Own>),
    Error(Box<Val>),
    Function(Seq<(Seq<char>, Token)>, Token, Ast),
}

impl Address {
    pub open spec fn view(&self) -> Key {
        match self {
            Address::Name(s) => Key::Name(s@),
            Address::Heap(i) => Key::Slot(*i as int),
        }
    }

    pub fn duplicate(&self) -> (r: Address)
        ensures
            r@ == self@,
    {
        match self {
            Address::Name(s) => Address::Name(s.clone()),
            Address::Heap(i) => Address::Heap(*i),
        }
    }
}

/// The views of a list of bindings.
pub open spec fn owns_view(s: Seq<OwnerShip>) -> Seq<Own> {
    Seq::new(s.len(), |i: int| s[i]@)
}

impl OwnerShip {
    pub open spec fn view(&self) -> Own
        decreases self,
    {
        match self {
            OwnerShip::Reference(a) => Own::Reference(a@),
            OwnerShip::Instance(o) => Own::Instance(o.view()),
        }
    }

    pub fn duplicate(&self) -> (r: OwnerShip)
        ensures
            r@ == self@,
        decreases self,
    {
        match self {
            OwnerShip::Reference(a) => OwnerShip::Reference(a.duplicate()),
            OwnerShip::Instance(o) => OwnerShip::Instance(o.duplicate()),
        }
    }
}

/// The variant of a value, its contents aside.
pub open spec fn val_tag(v: Val) -> int {
    match v {
        Val::Integer(_) => 0,
        Val::Float(_) => 1,
        Val::Str(_) => 2,
        Val::Boolean(_) => 3,
        Val::Null => 4,
        Val::Array(_) => 5,
        Val::Error(_) => 6,
        Val::Function(..) => 7,
    }
}

pub proof fn lemma_array_object_view(values: Vec<OwnerShip>)
    ensures
        (Object::Array(values))@ == Val::Array(owns_view(values@)),
{
    assert((Object::Array(values))@->Array_0 =~= owns_view(values@));
}

/// A copy of a list of bindings.
pub fn duplicate_owns(v: &Vec<OwnerShip>) -> (r: Vec<OwnerShip>)
    ensures
        owns_view(r@) == owns_view(v@),
    decreases v,
{
    let mut r: Vec<OwnerShip> = Vec::new();
    let mut i: usize = 0;
    while i < v.len()
        invariant
            i <= v@.len(),
            owns_view(r@) =~= owns_view(v@).subrange(0, i as int),
        decreases v@.len() - i,
    {
        proof {
            vstd::std_specs::vec::axiom_vec_index_decreases(*v, i as int);
        }
        let o = v[i].duplicate();
        let ghost prev = owns_view(r@);
        r.push(o);
        assert(owns_view(r@) =~= prev.push(o@));
        i += 1;
    }
    assert(owns_view(v@).subrange(0, v@.len() as int) =~= owns_view(v@));
    r
}

impl Object {
    pub open spec fn view(&self) -> Val
        decreases self,
    {
        match self {
            Object::Integer(i) => Val::Integer(*i),
            Object::Float(f) => Val::Float(*f),
            Object::String(s) => Val::Str(s@),
            Object::Boolean(b) => Val::Boolean(*b),
            Object::Null => Val::Null,
            Object::Array(v) => Val::Array(
                Seq::new(
                    v@.len(),
                    |i: int|
                        if 0 <= i < v@.len() {
                            v@[i].view()
                        } else {
                            Own::Instance(Val::Null)
                        },
                ),
            ),
            Object::Error(o) => Val::Error(Box::new(o.view())),
            Object::Function { parameters, typee, body } => Val::Function(
                params_view(parameters@),
                *typee,
                body@,
            ),
        }
    }

    /// A copy of the value.
    pub fn duplicate(&self) -> (r: Object)
        ensures
            r@ == self@,
        decreases self,
    {
        match self {
            Object::Integer(i) => Object::Integer(*i),
            Object::Float(f) => Object::Float(*f),
            Object::String(s) => Object::String(s.clone()),
            Object::Boolean(b) => Object::Boolean(*b),
            Object::Null => Object::Null,
            Object::Array(v) => {
                let copied = duplicate_owns(v);
                proof {
                    lemma_array_object_view(copied);
                    lemma_array_object_view(*v);
                }
                Object::Array(copied)
            },
            Object::Error(o) => Object::Error(Box::new(o.duplicate())),
            Object::Function { parameters, typee, body } => Object::Function {
                parameters: duplicate_params(parameters),
                typee: typee.duplicate(),
                body: Box::new(body.duplicate()),
            },
        }
    }

    fn variant_number(&self) -> (r: u8)
        ensures
            r == val_tag(self@),
    {
        match self {
            Object::Integer(_) => 0,
            Object::Float(_) => 1,
            Object::String(_) => 2,
            Object::Boolean(_) => 3,
            Object::Null => 4,
            Object::Array(_) => 5,
            Object::Error(_) => 6,
            Object::Function { .. } => 7,
        }
    }

    /// Whether the two values are of the same variant, contents aside.
    pub fn equal_variant(&self, other: &Object) -> (r: bool)
        ensures
            r == (val_tag(self@) == val_tag(other@)),
    {
        self.variant_number() == other.variant_number()
    }
}

} // verus!
