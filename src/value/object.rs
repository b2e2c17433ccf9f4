//! Objects: an optional metatype and the field storage.

use vstd::prelude::*;
use std::collections::{BTreeMap, HashMap, HashSet};
use std::rc::Rc;
use crate::ast;
use crate::value::Value;
use crate::value::sym::Symbol;
use vstd::std_specs::btree::spec_keys_iter;
use vstd::std_specs::iter::IteratorSpec;
use vstd::std_specs::cmp::OrdSpec;

verus! {

broadcast use vstd::std_specs::hash::group_hash_axioms, vstd::std_specs::btree::group_btree_axioms;

#[derive(Debug)]
pub struct Object {
    pub metatype: Option<Rc<MetaType>>,
    pub fields: ObjectFields,
}

/// A declared type: its name, inherent methods and constants, and for each
/// trait it implements, that trait's methods for this type.
#[derive(Debug)]
pub struct MetaType {
    pub name: Symbol,
    pub inherent_type: TypeImpl,
    pub trait_impls: HashMap<Symbol, TypeImpl>,
}

#[derive(Debug)]
pub struct TraitDef {
    pub name: Symbol,
    pub constants: HashSet<Symbol>,
    pub static_methods: HashMap<Symbol, Rc<ast::TraitFunction>>,
    pub member_methods: HashMap<Symbol, Rc<ast::TraitFunction>>,
    pub default_impl: Option<TypeImpl>,
}

#[derive(Debug)]
pub struct TypeImpl {
    pub name: Symbol,
    pub interface: Option<Symbol>,
    pub constants: HashMap<Symbol, Value>,
    pub static_methods: HashMap<Symbol, Rc<ast::Function>>,
    pub member_methods: HashMap<Symbol, Rc<ast::Function>>,
}

/// The fields of an object, keyed by the number of their symbol, in one of
/// two stores chosen at construction: an ordered map, walked in key order,
/// or a hash map.
#[derive(Debug)]
pub enum ObjectFields {
    Tree(BTreeMap<usize, Value>),
    Hash(HashMap<usize, Value>),
}

impl View for ObjectFields {
    type V = Map<usize, Value>;

    open spec fn view(&self) -> Map<usize, Value> {
        match self {
            ObjectFields::Tree(t) => t@,
            ObjectFields::Hash(h) => h@,
        }
    }
}

proof fn lemma_keys_of(out: Seq<Symbol>, seq: Seq<&usize>, dom: Set<usize>)
    requires
        out.len() == seq.len() == dom.len(),
        seq.no_duplicates(),
        seq.unref().to_set() == dom,
        forall|i: int| 0 <= i < seq.len() ==> (#[trigger] out[i]).0 == *seq[i],
    ensures
        forall|i: int, j: int| 0 <= i < j < out.len() ==> out[i] != out[j],
        forall|k: usize| dom.contains(k) <==> exists|i: int| 0 <= i < out.len() && (#[trigger] out[i]).0 == k,
{
    assert forall|i: int, j: int| 0 <= i < j < out.len() implies out[i] != out[j] by {
        assert(seq[i] != seq[j]);
    }
    assert forall|k: usize| dom.contains(k) implies exists|i: int| 0 <= i < out.len() && (#[trigger] out[i]).0 == k by {
        assert(seq.unref().contains(k));
        let i = choose|i: int| 0 <= i < seq.unref().len() && seq.unref()[i] == k;
        assert(out[i].0 == k);
    }
    assert forall|k: usize| (exists|i: int| 0 <= i < out.len() && (#[trigger] out[i]).0 == k) implies dom.contains(k) by {
        let i = choose|i: int| 0 <= i < out.len() && (#[trigger] out[i]).0 == k;
        assert(seq.unref()[i] == k);
        assert(seq.unref().contains(k));
    }
}

impl ObjectFields {
    /// Empty fields: in a hash map where `hash` holds, in an ordered map otherwise.
    pub fn new(hash: bool) -> (r: Self)
        ensures
            r@ == Map::<usize, Value>::empty(),
            (r is Hash) == hash,
    {
        if hash {
            ObjectFields::Hash(HashMap::new())
        } else {
            ObjectFields::Tree(BTreeMap::new())
        }
    }

    /// The value of field `key`, if it is set.
    pub fn get_ref(&self, key: Symbol) -> (r: Option<&Value>)
        ensures
            match r {
                Some(v) => self@.contains_key(key.0) && *v == self@[key.0],
                None => !self@.contains_key(key.0),
            },
    {
        match self {
            ObjectFields::Tree(tree) => tree.get(&key.0),
            ObjectFields::Hash(hash) => hash.get(&key.0),
        }
    }

    /// A clone of the value of field `key`, or `Nil` where it is not set.
    pub fn get(&self, key: Symbol) -> (r: Value)
        ensures
            !self@.contains_key(key.0) ==> r is Nil,
            self@.contains_key(key.0) ==> r == self@[key.0],
    {
        match self.get_ref(key) {
            Some(v) => v.clone(),
            None => Value::Nil,
        }
    }

    /// Sets field `key` to `value`; the store keeps its kind.
    pub fn set(&mut self, key: Symbol, value: Value)
        ensures
            final(self)@ == old(self)@.insert(key.0, value),
            (*final(self) is Hash) == (*old(self) is Hash),
    {
        match self {
            ObjectFields::Tree(tree) => {
                tree.insert(key.0, value);
            },
            ObjectFields::Hash(hash) => {
                hash.insert(key.0, value);
            },
        }
    }

    /// The keys of the set fields, each once: in increasing order for an
    /// ordered map, in the hash map's order otherwise.
    pub fn keys(&self) -> (r: Vec<Symbol>)
        ensures
            r@.len() == self@.dom().len(),
            forall|i: int, j: int| 0 <= i < j < r@.len() ==> r@[i] != r@[j],
            forall|k: usize| self@.contains_key(k) <==> exists|i: int| 0 <= i < r@.len() && (#[trigger] r@[i]).0 == k,
            self is Tree ==> forall|i: int, j: int| 0 <= i < j < r@.len() ==> r@[i].0 < r@[j].0,
    {
        let mut out: Vec<Symbol> = Vec::new();
        match self {
            ObjectFields::Tree(tree) => {
                for k in it: tree.keys()
                    invariant
                        it.seq() == spec_keys_iter(tree).remaining(),
                        out@.len() == it.index(),
                        forall|i: int| 0 <= i < it.index() ==> (#[trigger] out@[i]).0 == *it.seq()[i],
                {
                    out.push(Symbol(*k));
                }
                proof {
                    broadcast use vstd::laws_cmp::group_laws_cmp, vstd::std_specs::btree::axiom_increasing_seq_meaning;
                    let seq = spec_keys_iter(tree).remaining();
                    assert(vstd::laws_cmp::obeys_cmp::<usize>());
                    assert(vstd::laws_cmp::obeys_cmp::<&usize>());
                    assert(vstd::std_specs::btree::increasing_seq(seq));
                    assert(out@.len() == seq.len());
                    assert(seq.unref().to_set() == tree@.dom());
                    assert forall|i: int, j: int| 0 <= i < j < out@.len() implies out@[i].0 < out@[j].0 by {
                        assert(<&usize as OrdSpec>::cmp_spec(&seq[i], &seq[j]) is Less);
                    }
                    lemma_keys_of(out@, seq, tree@.dom());
                }
            },
            ObjectFields::Hash(hash) => {
                for k in it: hash.keys()
                    invariant
                        it.seq() == vstd::std_specs::hash::spec_keys_iter(hash).remaining(),
                        out@.len() == it.index(),
                        forall|i: int| 0 <= i < it.index() ==> (#[trigger] out@[i]).0 == *it.seq()[i],
                {
                    out.push(Symbol(*k));
                }
                proof {
                    let seq = vstd::std_specs::hash::spec_keys_iter(hash).remaining();
                    assert(seq.unref().to_set() == hash@.dom());
                    lemma_keys_of(out@, seq, hash@.dom());
                }
            },
        }
        out
    }
}

} // verus!
