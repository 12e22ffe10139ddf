use p_lang::environment::{Environment, Heap, Stack};
use p_lang::error::EvalError;
use p_lang::object::{Address, Object, OwnerShip};

#[test]
fn stack_scopes_and_shadowing() {
    let mut stack = Stack::new();
    stack.add("a".to_string(), OwnerShip::Instance(Object::Integer(1)));
    stack.create_scope();
    stack.add("a".to_string(), OwnerShip::Instance(Object::Integer(2)));
    assert_eq!(stack.get(&"a".to_string()), Some(&OwnerShip::Instance(Object::Integer(2))));
    assert!(stack.set(&"a".to_string(), OwnerShip::Instance(Object::Integer(3))));
    assert_eq!(stack.get(&"a".to_string()), Some(&OwnerShip::Instance(Object::Integer(3))));
    stack.drop_scope();
    assert_eq!(stack.len(), 1);
    assert_eq!(stack.get(&"a".to_string()), Some(&OwnerShip::Instance(Object::Integer(1))));
    assert_eq!(stack.get(&"b".to_string()), None);
    assert!(!stack.set(&"b".to_string(), OwnerShip::Instance(Object::Null)));
}

#[test]
fn heap_slots() {
    let mut heap = Heap::new();
    let a = heap.set(OwnerShip::Instance(Object::Boolean(true)));
    let b = heap.set(OwnerShip::Instance(Object::Integer(7)));
    assert_eq!((a, b), (0, 1));
    assert_eq!(heap.get(b), Some(&OwnerShip::Instance(Object::Integer(7))));
    assert!(heap.replace(b, OwnerShip::Instance(Object::Integer(8))));
    assert_eq!(heap.get(b), Some(&OwnerShip::Instance(Object::Integer(8))));
    heap.deallocate(a);
    assert_eq!(heap.get(a), None);
    assert!(!heap.replace(a, OwnerShip::Instance(Object::Null)));
    assert_eq!(heap.get(9), None);
    assert_eq!(heap.len(), 2);
}

#[test]
fn references_resolve_through_stack_and_heap() {
    let mut env = Environment::new();
    let slot = env.allocate(OwnerShip::Instance(Object::Integer(5)));
    env.bind("x".to_string(), OwnerShip::Reference(Address::Heap(slot)));
    env.bind("y".to_string(), OwnerShip::Reference(Address::Name("x".to_string())));
    let y = OwnerShip::Reference(Address::Name("y".to_string()));
    assert_eq!(y.value(&env).unwrap(), Object::Integer(5));
    assert!(env.set(&Address::Heap(slot), OwnerShip::Instance(Object::Integer(6))));
    assert_eq!(y.value(&env).unwrap(), Object::Integer(6));
    let missing = OwnerShip::Reference(Address::Name("z".to_string()));
    assert!(matches!(missing.value(&env).unwrap_err(), EvalError::UnknownIdentifier(ref n) if n == "z"));
    let dangling = OwnerShip::Reference(Address::Heap(40));
    assert!(matches!(dangling.value(&env).unwrap_err(), EvalError::UnknownAddress(40)));
    env.bind("loop".to_string(), OwnerShip::Reference(Address::Name("loop".to_string())));
    let looping = OwnerShip::Reference(Address::Name("loop".to_string()));
    assert!(matches!(looping.value(&env).unwrap_err(), EvalError::CyclicReference(_)));
}

#[test]
fn object_variants_compare_by_kind() {
    assert!(Object::Integer(1).equal_variant(&Object::Integer(2)));
    assert!(!Object::Integer(1).equal_variant(&Object::Float(1)));
    assert!(Object::Null.equal_variant(&Object::Null));
}
