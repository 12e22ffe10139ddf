use vstd::prelude::*;
use crate::error::{EErr, EvalError};
use crate::object::{Address, Key, Own, OwnerShip, Val};

verus! {

broadcast use vstd::std_specs::vec::group_vec_axioms;

/// Scope boundaries `sc` over a stack of `n` bindings: the first is 0, they
/// never decrease, and none lies past the top.
pub open spec fn scopes_ok(sc: Seq<usize>, n: int) -> bool {
    &&& sc.len() >= 1
    &&& sc[0] == 0
    &&& forall|i: int, j: int| 0 <= i <= j < sc.len() ==> sc[i] <= sc[j]
    &&& forall|i: int| 0 <= i < sc.len() ==> sc[i] <= n
}

/// The position of the most recent binding named `name`.
pub open spec fn lookup(bs: Seq<(Seq<char>, Own)>, name: Seq<char>) -> Option<int>
    decreases bs.len(),
{
    if bs.len() == 0 {
        None
    } else if bs.last().0 == name {
        Some(bs.len() - 1)
    } else {
        lookup(bs.drop_last(), name)
    }
}

pub proof fn lemma_lookup_bounds(bs: Seq<(Seq<char>, Own)>, name: Seq<char>)
    ensures
        match lookup(bs, name) {
            Some(i) => 0 <= i < bs.len() && bs[i].0 == name,
            None => true,
        },
    decreases bs.len(),
{
    if bs.len() > 0 && bs.last().0 != name {
        lemma_lookup_bounds(bs.drop_last(), name);
    }
}

/// The binding stack: named bindings, most recent last, cut into scopes.
pub struct Stack {
    values: Vec<(String, OwnerShip)>,
    scope_pointers: Vec<usize>,
}

impl Stack {
    pub closed spec fn bindings(&self) -> Seq<(Seq<char>, Own)> {
        Seq::new(self.values@.len(), |i: int| (self.values@[i].0@, self.values@[i].1@))
    }

    /// Where each live scope starts; the first one is the outermost.
    pub closed spec fn scopes(&self) -> Seq<usize> {
        self.scope_pointers@
    }

    pub open spec fn wf(&self) -> bool {
        &&& scopes_ok(self.scopes(), self.bindings().len() as int)
        &&& self.bindings().len() <= usize::MAX
    }

    pub fn new() -> (r: Stack)
        ensures
            r.wf(),
            r.bindings() == Seq::<(Seq<char>, Own)>::empty(),
            r.scopes() == seq![0usize],
    {
        let mut scope_pointers: Vec<usize> = Vec::new();
        scope_pointers.push(0);
        let r = Stack { values: Vec::new(), scope_pointers };
        assert(r.bindings() =~= Seq::<(Seq<char>, Own)>::empty());
        assert(r.scopes() =~= seq![0usize]);
        r
    }

    pub fn len(&self) -> (r: usize)
        ensures
            r == self.bindings().len(),
    {
        self.values.len()
    }

    /// Opens a scope at the top of the stack.
    pub fn create_scope(&mut self)
        requires
            old(self).wf(),
        ensures
            final(self).wf(),
            final(self).bindings() == old(self).bindings(),
            final(self).scopes() == old(self).scopes().push(old(self).bindings().len() as usize),
    {
        let n = self.values.len();
        self.scope_pointers.push(n);
        assert(self.bindings() =~= old(self).bindings());
    }

    /// Closes the innermost scope, discarding every binding made in it.
    pub fn drop_scope(&mut self)
        requires
            old(self).wf(),
            old(self).scopes().len() > 1,
        ensures
            final(self).wf(),
            final(self).bindings() == old(self).bindings().subrange(
                0,
                old(self).scopes().last() as int,
            ),
            final(self).scopes() == old(self).scopes().drop_last(),
    {
        let start = self.scope_pointers.pop().unwrap();
        self.values.truncate(start);
        assert(self.bindings() =~= old(self).bindings().subrange(0, start as int));
    }

    /// Binds `identifier` in the innermost scope.
    pub fn add(&mut self, identifier: String, value: OwnerShip)
        requires
            old(self).wf(),
        ensures
            final(self).wf(),
            final(self).bindings() == old(self).bindings().push((identifier@, value@)),
            final(self).scopes() == old(self).scopes(),
    {
        let ghost item = (identifier@, value@);
        self.values.push((identifier, value));
        let _ = self.values.len();
        assert(self.bindings() =~= old(self).bindings().push(item));
    }

    fn position(&self, identifier: &String) -> (r: Option<usize>)
        ensures
            r matches Some(i) ==> lookup(self.bindings(), identifier@) == Some(i as int),
            r is None ==> lookup(self.bindings(), identifier@) is None,
    {
        let ghost bs = self.bindings();
        let mut i = self.values.len();
        assert(bs.subrange(0, i as int) =~= bs);
        while i > 0
            invariant
                i <= self.values@.len(),
                bs == self.bindings(),
                lookup(bs, identifier@) == lookup(bs.subrange(0, i as int), identifier@),
            decreases i,
        {
            let ghost sub = bs.subrange(0, i as int);
            assert(sub.drop_last() =~= bs.subrange(0, i - 1));
            if self.values[i - 1].0 == *identifier {
                return Some(i - 1);
            }
            i -= 1;
        }
        None
    }

    /// The most recent binding named `identifier`.
    pub fn get(&self, identifier: &String) -> (r: Option<&OwnerShip>)
        ensures
            match lookup(self.bindings(), identifier@) {
                Some(i) => r matches Some(o) && o@ == self.bindings()[i].1,
                None => r is None,
            },
    {
        proof {
            lemma_lookup_bounds(self.bindings(), identifier@);
        }
        match self.position(identifier) {
            Some(i) => Some(&self.values[i].1),
            None => None,
        }
    }

    /// Rebinds the most recent binding named `identifier`; false where there is none.
    pub fn set(&mut self, identifier: &String, value: OwnerShip) -> (r: bool)
        requires
            old(self).wf(),
        ensures
            final(self).wf(),
            final(self).scopes() == old(self).scopes(),
            match lookup(old(self).bindings(), identifier@) {
                Some(i) => r && final(self).bindings() == old(self).bindings().update(
                    i,
                    (identifier@, value@),
                ),
                None => !r && final(self).bindings() == old(self).bindings(),
            },
    {
        proof {
            lemma_lookup_bounds(self.bindings(), identifier@);
        }
        match self.position(identifier) {
            Some(i) => {
                let name = self.values[i].0.clone();
                let ghost item = (identifier@, value@);
                self.values.set(i, (name, value));
                assert(self.bindings() =~= old(self).bindings().update(i as int, item));
                true
            },
            None => false,
        }
    }
}

/// Storage for values that no name owns, addressed by slot number. A slot
/// stays allocated until it is released with `deallocate`.
pub struct Heap {
    memory: Vec<Option<OwnerShip>>,
}

/// The view of an optional binding.
pub open spec fn opt_view(o: Option<OwnerShip>) -> Option<Own> {
    match o {
        Some(x) => Some(x@),
        None => None,
    }
}

impl Heap {
    pub closed spec fn cells(&self) -> Seq<Option<Own>> {
        Seq::new(self.memory@.len(), |i: int| opt_view(self.memory@[i]))
    }

    pub fn new() -> (r: Heap)
        ensures
            r.cells() == Seq::<Option<Own>>::empty(),
    {
        let r = Heap { memory: Vec::new() };
        assert(r.cells() =~= Seq::<Option<Own>>::empty());
        r
    }

    pub fn len(&self) -> (r: usize)
        ensures
            r == self.cells().len(),
    {
        self.memory.len()
    }

    pub fn get(&self, address: usize) -> (r: Option<&OwnerShip>)
        ensures
            match (if address < self.cells().len() { self.cells()[address as int] } else { None }) {
                Some(v) => r matches Some(o) && o@ == v,
                None => r is None,
            },
    {
        if address < self.memory.len() {
            match &self.memory[address] {
                Some(o) => Some(o),
                None => None,
            }
        } else {
            None
        }
    }

    /// Stores `value` in a fresh slot and returns its address.
    pub fn set(&mut self, value: OwnerShip) -> (r: usize)
        ensures
            r == old(self).cells().len(),
            final(self).cells() == old(self).cells().push(Some(value@)),
    {
        let r = self.memory.len();
        let ghost v = value@;
        self.memory.push(Some(value));
        assert(self.cells() =~= old(self).cells().push(Some(v)));
        r
    }

    /// Overwrites an allocated slot; false where `address` holds nothing.
    pub fn replace(&mut self, address: usize, value: OwnerShip) -> (r: bool)
        ensures
            r == (address < old(self).cells().len() && old(self).cells()[address as int] is Some),
            r ==> final(self).cells() == old(self).cells().update(address as int, Some(value@)),
            !r ==> final(self).cells() == old(self).cells(),
    {
        if address < self.memory.len() && self.memory[address].is_some() {
            let ghost v = value@;
            self.memory.set(address, Some(value));
            assert(self.cells() =~= old(self).cells().update(address as int, Some(v)));
            true
        } else {
            false
        }
    }

    /// Releases a slot.
    pub fn deallocate(&mut self, address: usize)
        ensures
            address < old(self).cells().len() ==> final(self).cells() == old(self).cells().update(
                address as int,
                None,
            ),
            address >= old(self).cells().len() ==> final(self).cells() == old(self).cells(),
    {
        if address < self.memory.len() {
            self.memory.set(address, None);
            assert(self.cells() =~= old(self).cells().update(address as int, None));
        }
    }
}

/// The execution context: the binding stack and the heap, and whether
/// `while` bodies run in a scope of their own each iteration.
pub struct Environment {
    stack: Stack,
    heap: Heap,
    scoped_loops: bool,
    /// What is left of the budget of loop iterations and function calls.
    steps: u64,
}

/// What the bindings of an environment hold: the stack's named bindings,
/// most recent last, and the heap's slots.
pub struct Mem {
    pub bindings: Seq<(Seq<char>, Own)>,
    pub cells: Seq<Option<Own>>,
}

impl Mem {
    /// `name` bound to `o` on top of the stack.
    pub open spec fn bind(self, name: Seq<char>, o: Own) -> Mem {
        Mem { bindings: self.bindings.push((name, o)), cells: self.cells }
    }

    /// `o` stored in a fresh heap slot, whose address is `self.cells.len()`.
    pub open spec fn store(self, o: Own) -> Mem {
        Mem { bindings: self.bindings, cells: self.cells.push(Some(o)) }
    }

    /// The stack cut back to its first `n` bindings.
    pub open spec fn truncate(self, n: int) -> Mem {
        Mem { bindings: self.bindings.subrange(0, n), cells: self.cells }
    }

    /// The binding that `k` names set to `o`; `None` where there is none.
    pub open spec fn set(self, k: Key, o: Own) -> Option<Mem> {
        match k {
            Key::Name(n) => match lookup(self.bindings, n) {
                Some(i) => Some(Mem { bindings: self.bindings.update(i, (n, o)), cells: self.cells }),
                None => None,
            },
            Key::Slot(i) => if 0 <= i < self.cells.len() && self.cells[i] is Some {
                Some(Mem { bindings: self.bindings, cells: self.cells.update(i, Some(o)) })
            } else {
                None
            },
        }
    }
}

/// The binding that `k` names, if any.
pub open spec fn binding_of(m: Mem, k: Key) -> Option<Own> {
    match k {
        Key::Name(n) => match lookup(m.bindings, n) {
            Some(i) => Some(m.bindings[i].1),
            None => None,
        },
        Key::Slot(i) => if 0 <= i < m.cells.len() {
            m.cells[i]
        } else {
            None
        },
    }
}

/// The error for a key that names no binding.
pub open spec fn missing(k: Key) -> EErr {
    match k {
        Key::Name(n) => EErr::UnknownIdentifier(n),
        Key::Slot(i) => EErr::UnknownAddress(i),
    }
}

/// The value that `o` stands for, following at most `fuel` references.
pub open spec fn resolve(env: Mem, o: Own, fuel: nat) -> Result<Val, EErr>
    decreases fuel,
{
    match o {
        Own::Instance(v) => Ok(v),
        Own::Reference(k) => if fuel == 0 {
            Err(EErr::CyclicReference(k))
        } else {
            match binding_of(env, k) {
                Some(next) => resolve(env, next, (fuel - 1) as nat),
                None => Err(missing(k)),
            }
        },
    }
}

/// How many references a resolution may follow: one more than the bindings
/// there are, so that a longer chain must have visited one binding twice.
pub open spec fn hop_limit(env: Mem) -> nat {
    let n = env.bindings.len() + env.cells.len() + 1;
    if n <= usize::MAX {
        n as nat
    } else {
        usize::MAX as nat
    }
}

/// The value that `o` stands for in `env`.
pub open spec fn deref(env: Mem, o: Own) -> Result<Val, EErr> {
    resolve(env, o, hop_limit(env))
}

/// The key of the binding that holds the value `k` leads to: the binding
/// that an assignment through `k` changes.
pub open spec fn terminal(env: Mem, k: Key, fuel: nat) -> Result<Key, EErr>
    decreases fuel,
{
    match binding_of(env, k) {
        None => Err(missing(k)),
        Some(Own::Instance(_)) => Ok(k),
        Some(Own::Reference(next)) => if fuel == 0 {
            Err(EErr::CyclicReference(next))
        } else {
            terminal(env, next, (fuel - 1) as nat)
        },
    }
}

impl Environment {
    pub closed spec fn st(&self) -> Stack {
        self.stack
    }

    pub closed spec fn hp(&self) -> Heap {
        self.heap
    }

    pub closed spec fn loops_scoped(&self) -> bool {
        self.scoped_loops
    }

    pub closed spec fn steps_left(&self) -> nat {
        self.steps as nat
    }

    pub open spec fn wf(&self) -> bool {
        self.st().wf()
    }

    /// The bindings of the environment.
    pub open spec fn mem(&self) -> Mem {
        Mem { bindings: self.st().bindings(), cells: self.hp().cells() }
    }

    /// An empty environment; `while` bodies share the enclosing scope, and
    /// the budget of steps is the largest there is.
    pub fn new() -> (r: Environment)
        ensures
            r.wf(),
            r.st().bindings() == Seq::<(Seq<char>, Own)>::empty(),
            r.st().scopes() == seq![0usize],
            r.hp().cells() == Seq::<Option<Own>>::empty(),
            !r.loops_scoped(),
            r.steps_left() == u64::MAX,
    {
        Environment { stack: Stack::new(), heap: Heap::new(), scoped_loops: false, steps: u64::MAX }
    }

    /// An empty environment; with `scoped` each `while` iteration runs its
    /// body in a scope of its own.
    pub fn with_loop_scopes(scoped: bool) -> (r: Environment)
        ensures
            r.wf(),
            r.st().bindings() == Seq::<(Seq<char>, Own)>::empty(),
            r.st().scopes() == seq![0usize],
            r.hp().cells() == Seq::<Option<Own>>::empty(),
            r.loops_scoped() == scoped,
            r.steps_left() == u64::MAX,
    {
        Environment { stack: Stack::new(), heap: Heap::new(), scoped_loops: scoped, steps: u64::MAX }
    }

    /// Sets the budget: how many loop iterations and function calls the
    /// evaluation may still make.
    pub fn set_step_limit(&mut self, steps: u64)
        ensures
            final(self).steps_left() == steps,
            final(self).st() == old(self).st(),
            final(self).hp() == old(self).hp(),
            final(self).loops_scoped() == old(self).loops_scoped(),
    {
        self.steps = steps;
    }

    pub fn steps(&self) -> (r: u64)
        ensures
            r == self.steps_left(),
    {
        self.steps
    }

    /// Spends one step of the budget; false, and nothing spent, where none is left.
    pub fn take_step(&mut self) -> (r: bool)
        ensures
            r == (old(self).steps_left() > 0),
            r ==> final(self).steps_left() == old(self).steps_left() - 1,
            !r ==> final(self).steps_left() == old(self).steps_left(),
            final(self).st() == old(self).st(),
            final(self).hp() == old(self).hp(),
            final(self).loops_scoped() == old(self).loops_scoped(),
    {
        if self.steps > 0 {
            self.steps = self.steps - 1;
            true
        } else {
            false
        }
    }

    pub fn loop_scopes(&self) -> (r: bool)
        ensures
            r == self.loops_scoped(),
    {
        self.scoped_loops
    }

    pub fn stack(&self) -> (r: &Stack)
        ensures
            *r == self.st(),
    {
        &self.stack
    }

    pub fn heap(&self) -> (r: &Heap)
        ensures
            *r == self.hp(),
    {
        &self.heap
    }

    pub fn stack_mut(&mut self) -> (r: &mut Stack)
        ensures
            *r == old(self).st(),
            final(self).st() == *final(r),
            final(self).hp() == old(self).hp(),
            final(self).loops_scoped() == old(self).loops_scoped(),
            final(self).steps_left() == old(self).steps_left(),
    {
        &mut self.stack
    }

    pub fn heap_mut(&mut self) -> (r: &mut Heap)
        ensures
            *r == old(self).hp(),
            final(self).hp() == *final(r),
            final(self).st() == old(self).st(),
            final(self).loops_scoped() == old(self).loops_scoped(),
            final(self).steps_left() == old(self).steps_left(),
    {
        &mut self.heap
    }

    /// The binding that `key` names.
    pub fn get(&self, key: &Address) -> (r: Option<&OwnerShip>)
        ensures
            match binding_of(self.mem(), key@) {
                Some(v) => r matches Some(o) && o@ == v,
                None => r is None,
            },
    {
        match key {
            Address::Name(n) => self.stack.get(n),
            Address::Heap(i) => self.heap.get(*i),
        }
    }

    /// Rebinds the binding that `key` names; false where there is none.
    pub fn set(&mut self, key: &Address, value: OwnerShip) -> (r: bool)
        requires
            old(self).wf(),
        ensures
            final(self).wf(),
            final(self).st().scopes() == old(self).st().scopes(),
            final(self).loops_scoped() == old(self).loops_scoped(),
            final(self).steps_left() == old(self).steps_left(),
            r == binding_of(old(self).mem(), key@) is Some,
            match key@ {
                Key::Name(n) => final(self).hp() == old(self).hp() && match lookup(
                    old(self).st().bindings(),
                    n,
                ) {
                    Some(i) => final(self).st().bindings() == old(self).st().bindings().update(
                        i,
                        (n, value@),
                    ),
                    None => final(self).st().bindings() == old(self).st().bindings(),
                },
                Key::Slot(i) => {
                    &&& final(self).st() == old(self).st()
                    &&& r ==> final(self).hp().cells() == old(self).hp().cells().update(i, Some(value@))
                    &&& !r ==> final(self).hp().cells() == old(self).hp().cells()
                },
            },
    {
        match key {
            Address::Name(n) => self.stack.set(n, value),
            Address::Heap(i) => self.heap.replace(*i, value),
        }
    }

    /// Opens a scope at the top of the stack.
    pub fn open_scope(&mut self)
        requires
            old(self).wf(),
        ensures
            final(self).wf(),
            final(self).st().bindings() == old(self).st().bindings(),
            final(self).st().scopes() == old(self).st().scopes().push(
                old(self).st().bindings().len() as usize,
            ),
            final(self).hp() == old(self).hp(),
            final(self).loops_scoped() == old(self).loops_scoped(),
            final(self).steps_left() == old(self).steps_left(),
    {
        self.stack.create_scope();
    }

    /// Closes the innermost scope and its bindings.
    pub fn close_scope(&mut self)
        requires
            old(self).wf(),
            old(self).st().scopes().len() > 1,
        ensures
            final(self).wf(),
            final(self).st().bindings() == old(self).st().bindings().subrange(
                0,
                old(self).st().scopes().last() as int,
            ),
            final(self).st().scopes() == old(self).st().scopes().drop_last(),
            final(self).hp() == old(self).hp(),
            final(self).loops_scoped() == old(self).loops_scoped(),
            final(self).steps_left() == old(self).steps_left(),
    {
        self.stack.drop_scope();
    }

    /// Binds `name` in the innermost scope.
    pub fn bind(&mut self, name: String, value: OwnerShip)
        requires
            old(self).wf(),
        ensures
            final(self).wf(),
            final(self).st().bindings() == old(self).st().bindings().push((name@, value@)),
            final(self).st().scopes() == old(self).st().scopes(),
            final(self).hp() == old(self).hp(),
            final(self).loops_scoped() == old(self).loops_scoped(),
            final(self).steps_left() == old(self).steps_left(),
    {
        self.stack.add(name, value);
    }

    /// Stores `value` in a fresh heap slot and returns its address.
    pub fn allocate(&mut self, value: OwnerShip) -> (r: usize)
        requires
            old(self).wf(),
        ensures
            final(self).wf(),
            r == old(self).hp().cells().len(),
            final(self).hp().cells() == old(self).hp().cells().push(Some(value@)),
            final(self).st() == old(self).st(),
            final(self).loops_scoped() == old(self).loops_scoped(),
            final(self).steps_left() == old(self).steps_left(),
    {
        self.heap.set(value)
    }

    /// How many references a resolution may follow.
    pub fn hops(&self) -> (r: usize)
        ensures
            r == hop_limit(self.mem()),
    {
        let a = self.stack.len();
        let b = self.heap.len();
        if a < usize::MAX - b {
            a + b + 1
        } else {
            usize::MAX
        }
    }
}

/// The error for an address that names no binding.
pub fn missing_error(key: &Address) -> (r: EvalError)
    ensures
        r@ == missing(key@),
{
    match key {
        Address::Name(n) => EvalError::UnknownIdentifier(n.clone()),
        Address::Heap(i) => EvalError::UnknownAddress(*i),
    }
}

impl OwnerShip {
    /// The value this binding stands for, following references.
    pub fn value(&self, environment: &Environment) -> (r: Result<crate::object::Object, EvalError>)
        ensures
            match r {
                Ok(o) => deref(environment.mem(), self@) == Ok::<Val, EErr>(o@),
                Err(e) => deref(environment.mem(), self@) == Err::<Val, EErr>(e@),
            },
    {
        let mut current = self;
        let mut hops = environment.hops();
        loop
            invariant
                deref(environment.mem(), self@) == resolve(environment.mem(), current@, hops as nat),
            decreases hops,
        {
            match current {
                OwnerShip::Instance(o) => return Ok(o.duplicate()),
                OwnerShip::Reference(key) => {
                    if hops == 0 {
                        return Err(EvalError::CyclicReference(key.duplicate()));
                    }
                    match environment.get(key) {
                        Some(next) => {
                            current = next;
                            hops -= 1;
                        },
                        None => return Err(missing_error(key)),
                    }
                },
            }
        }
    }
}

} // verus!
