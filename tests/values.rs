use std::collections::hash_map::DefaultHasher;
use std::collections::HashMap;
use std::hash::{Hash, Hasher};
use std::rc::Rc;

use seal_lang::value::object::{Object, ObjectFields};
use seal_lang::value::shared::{Shared, SharedRef};
use seal_lang::value::sym::{Symbol, SymbolTable};
use seal_lang::value::{Value, ValueKey};

fn hash_of<T: Hash>(t: &T) -> u64 {
    let mut h = DefaultHasher::new();
    t.hash(&mut h);
    h.finish()
}

#[test]
fn intern_twice_gives_same_symbol() {
    let mut table = SymbolTable::new();
    let a = table.intern("x");
    let b = table.intern("x");
    assert_eq!(a, b);
    assert_eq!(table.get(a), "x");
}

#[test]
fn intern_assigns_sequential_symbols() {
    let mut table = SymbolTable::new();
    assert_eq!(table.intern("a"), Symbol(0));
    assert_eq!(table.intern("b"), Symbol(1));
    assert_eq!(table.intern("a"), Symbol(0));
    assert_eq!(table.intern(""), Symbol(2));
    assert_eq!(table.intern("ä"), Symbol(3));
    for i in 0..200 {
        let s = format!("name{}", i);
        let sym = table.intern(&s);
        assert_eq!(sym, Symbol(4 + i));
        assert_eq!(table.get(sym), s);
    }
    assert_eq!(table.intern("name17"), Symbol(21));
    assert_eq!(table.get(Symbol(1)), "b");
}

#[test]
fn cloned_handles_share_identity() {
    let a = Shared::new(vec![1, 2]);
    let b = a.clone();
    let (ra, rb) = (SharedRef::from(&a), SharedRef::from(&b));
    assert_eq!(ra, rb);
    assert!(ra.same(&rb));
    assert_eq!(hash_of(&ra), hash_of(&rb));
}

#[test]
fn separate_handles_differ_even_with_equal_contents() {
    let a = Shared::new(vec![1, 2]);
    let b = Shared::new(vec![1, 2]);
    let (ra, rb) = (SharedRef::from(&a), SharedRef::from(&b));
    assert_ne!(ra, rb);
    assert!(!ra.same(&rb));
    assert!(ra < rb || rb < ra);
    let c: Shared<Vec<u8>> = Shared::new(vec![1, 2]);
    assert_ne!(SharedRef::from(&c), ra);
}

#[test]
fn mutation_is_seen_through_every_owner() {
    let a = Shared::new(1u32);
    let b = a.clone();
    assert_eq!(a.replace(5), 1);
    assert_eq!(b.replace(7), 5);
    assert_eq!(a.replace(0), 7);
}

#[test]
fn keys_by_value_and_by_identity() {
    assert_eq!(ValueKey::create(&Value::Integer(3)), Ok(ValueKey::Integer(3)));
    let s = Rc::new("k".to_string());
    assert_eq!(ValueKey::create(&Value::String(s.clone())), Ok(ValueKey::String(s)));
    assert_eq!(ValueKey::create(&Value::Symbol(Symbol(4))), Ok(ValueKey::Symbol(Symbol(4))));
    let arr = Shared::new(vec![Value::Nil]);
    let key = ValueKey::create(&Value::Array(arr.clone())).unwrap();
    assert_eq!(key, ValueKey::Shared(SharedRef::from(&arr)));
    let table: Shared<HashMap<ValueKey, Value>> = Shared::new(HashMap::new());
    let tkey = ValueKey::create(&Value::Table(table.clone())).unwrap();
    assert_ne!(tkey, key);
    let obj = Shared::new(Object { metatype: None, fields: ObjectFields::new(false) });
    let okey = ValueKey::create(&Value::Object(obj.clone())).unwrap();
    assert_eq!(okey, ValueKey::Shared(SharedRef::from(&obj)));
}

#[test]
fn invalid_keys_are_errors() {
    assert_eq!(ValueKey::create(&Value::Nil), Err("nil cannot be used as a table key"));
    assert_eq!(ValueKey::create(&Value::Float(1.5f64.to_bits())), Err("floats cannot be used as a table key"));
    assert_eq!(
        ValueKey::create(&Value::Simd(Box::new(seal_lang::value::simd::SimdValue::I32x4([1, 2, 3, 4])))),
        Err("SIMD values cannot be used as a table key")
    );
    let f = seal_lang::ast::Function {
        name: "f".to_string(),
        parameters: vec![],
        can_error: false,
        is_member: false,
        body: seal_lang::ast::Block { statements: vec![] },
    };
    assert_eq!(ValueKey::create(&Value::PlainFunction(Rc::new(f))), Err("Functions may not be used as table keys"));
}

fn int_of(v: &Value) -> Option<i64> {
    match v {
        Value::Integer(i) => Some(*i),
        _ => None,
    }
}

#[test]
fn ordered_fields_iterate_in_key_order() {
    let mut fields = ObjectFields::new(false);
    assert!(matches!(fields, ObjectFields::Tree(_)));
    for k in [5usize, 1, 9, 3] {
        fields.set(Symbol(k), Value::Integer(k as i64 * 10));
    }
    assert_eq!(fields.keys(), vec![Symbol(1), Symbol(3), Symbol(5), Symbol(9)]);
    assert_eq!(int_of(&fields.get(Symbol(9))), Some(90));
    assert!(matches!(fields.get(Symbol(2)), Value::Nil));
}

#[test]
fn hash_fields_hold_the_same_pairs() {
    let mut tree = ObjectFields::new(false);
    let mut hash = ObjectFields::new(true);
    assert!(matches!(hash, ObjectFields::Hash(_)));
    for k in [5usize, 1, 9, 3] {
        tree.set(Symbol(k), Value::Integer(k as i64));
        hash.set(Symbol(k), Value::Integer(k as i64));
    }
    hash.set(Symbol(1), Value::Integer(100));
    tree.set(Symbol(1), Value::Integer(100));
    let mut keys = hash.keys();
    keys.sort();
    assert_eq!(keys, tree.keys());
    for k in keys {
        assert_eq!(int_of(&hash.get(k)), int_of(&tree.get(k)));
    }
    assert_eq!(int_of(&hash.get(Symbol(1))), Some(100));
    assert!(hash.get_ref(Symbol(4)).is_none());
}
