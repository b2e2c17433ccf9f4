//! Interning of text: a bijection between strings and small dense integers.

use vstd::prelude::*;
use std::collections::HashMap;

verus! {

broadcast use vstd::std_specs::hash::group_hash_axioms;

/// An interned string, valid only against the table that produced it.
#[derive(Copy, Clone, Debug, Hash, PartialEq, Eq, Structural, PartialOrd, Ord)]
pub struct Symbol(pub usize);

pub const FNV_OFFSET: u64 = 0xcbf2_9ce4_8422_2325;

pub const FNV_PRIME: u64 = 0x0000_0100_0000_01b3;

/// One step of the FNV-1a hash, on a whole code point.
pub open spec fn hash_step(h: u64, c: char) -> u64 {
    ((h ^ (c as u64)) as int * FNV_PRIME as int) as u64
}

/// The bucket of a text in the table's index.
pub open spec fn text_hash(s: Seq<char>) -> u64
    decreases s.len(),
{
    if s.len() == 0 {
        FNV_OFFSET
    } else {
        hash_step(text_hash(s.drop_last()), s.last())
    }
}

fn hash_text(s: &str) -> (r: u64)
    ensures
        r == text_hash(s@),
{
    broadcast use vstd::string::group_string_axioms;
    let mut h: u64 = FNV_OFFSET;
    for c in it: s.chars()
        invariant
            it.seq() == s@,
            h == text_hash(it.seq().subrange(0, it.index() as int)),
    {
        proof {
            let prefix = it.seq().subrange(0, it.index() as int);
            assert(it.seq().subrange(0, it.index() + 1).drop_last() =~= prefix);
        }
        let x = h ^ (c as u64);
        h = x.wrapping_mul(FNV_PRIME);
        proof {
            assert(h == (x as int * FNV_PRIME as int) as u64) by (bit_vector)
                requires
                    h == x.wrapping_mul(FNV_PRIME),
            ;
        }
    }
    assert(s@.subrange(0, s@.len() as int) =~= s@);
    h
}

/// The table: symbol `i` stands for the `i`-th text interned.
pub struct SymbolTable {
    strings: Vec<String>,
    lookup: HashMap<u64, Vec<usize>>,
}

/// The symbol of `s` in a table holding `texts`: its position if it is
/// there, the next free number otherwise.
pub open spec fn symbol_of(texts: Seq<Seq<char>>, s: Seq<char>) -> nat {
    if texts.contains(s) {
        choose|i: nat| i < texts.len() && texts[i as int] == s
    } else {
        texts.len()
    }
}

/// The texts of a table after interning `s`.
pub open spec fn interned(texts: Seq<Seq<char>>, s: Seq<char>) -> Seq<Seq<char>> {
    if texts.contains(s) {
        texts
    } else {
        texts.push(s)
    }
}

impl SymbolTable {
    /// The interned texts, in the order of their symbols.
    pub closed spec fn texts(&self) -> Seq<Seq<char>> {
        Seq::new(self.strings@.len(), |i: int| self.strings@[i]@)
    }

    pub closed spec fn wf(&self) -> bool {
        &&& self.texts().no_duplicates()
        &&& forall|i: int| 0 <= i < self.strings@.len() ==> {
            let h = text_hash(#[trigger] self.strings@[i]@);
            &&& self.lookup@.contains_key(h)
            &&& self.lookup@[h]@.contains(i as usize)
        }
        &&& forall|h: u64, k: int| #[trigger] self.lookup@.contains_key(h) && 0 <= k < self.lookup@[h]@.len()
            ==> {
            let id = #[trigger] self.lookup@[h]@[k];
            &&& id < self.strings@.len()
            &&& text_hash(self.strings@[id as int]@) == h
        }
    }

    /// An empty table.
    pub fn new() -> (r: Self)
        ensures
            r.wf(),
            r.texts() == Seq::<Seq<char>>::empty(),
    {
        let r = SymbolTable { strings: Vec::new(), lookup: HashMap::new() };
        assert(r.texts() =~= Seq::<Seq<char>>::empty());
        r
    }

    /// The symbol of `key`: the one it already has, else the next number,
    /// with `key` appended to the table.
    pub fn intern(&mut self, key: &str) -> (r: Symbol)
        requires
            old(self).wf(),
            old(self).texts().len() < usize::MAX,
        ensures
            final(self).wf(),
            final(self).texts() == interned(old(self).texts(), key@),
            r.0 == symbol_of(old(self).texts(), key@),
    {
        let h = hash_text(key);
        let owned = key.to_owned();
        let ghost texts = self.texts();
        match self.lookup.get(&h) {
            Some(bucket) => {
                let mut k: usize = 0;
                while k < bucket.len()
                    invariant
                        self.wf(),
                        texts == self.texts(),
                        owned@ == key@,
                        h == text_hash(key@),
                        self.lookup@.contains_key(h),
                        bucket@ == self.lookup@[h]@,
                        0 <= k <= bucket@.len(),
                        forall|j: int| 0 <= j < k ==> texts[bucket@[j] as int] != key@,
                    decreases bucket@.len() - k,
                {
                    let id = bucket[k];
                    assert(self.lookup@[h]@[k as int] == id);
                    if self.strings[id] == owned {
                        proof {
                            assert(texts[id as int] == key@);
                            assert(texts.contains(key@));
                            let c = choose|i: nat| i < texts.len() && texts[i as int] == key@;
                            assert(texts[c as int] == texts[id as int]);
                        }
                        return Symbol(id);
                    }
                    k += 1;
                }
                proof {
                    if texts.contains(key@) {
                        let i = choose|i: int| 0 <= i < texts.len() && texts[i] == key@;
                        assert(self.strings@[i]@ == key@);
                        assert(self.lookup@[h]@.contains(i as usize));
                        let j = choose|j: int| 0 <= j < bucket@.len() && bucket@[j] == i as usize;
                        assert(texts[bucket@[j] as int] == key@);
                    }
                }
            },
            None => {
                proof {
                    if texts.contains(key@) {
                        let i = choose|i: int| 0 <= i < texts.len() && texts[i] == key@;
                        assert(self.strings@[i]@ == key@);
                    }
                }
            },
        }
        let id = self.strings.len();
        let mut bucket = match self.lookup.get(&h) {
            Some(b) => b.clone(),
            None => Vec::new(),
        };
        bucket.push(id);
        let ghost old_lookup = self.lookup@;
        let ghost old_strings = self.strings@;
        self.strings.push(owned);
        self.lookup.insert(h, bucket);
        proof {
            assert(self.texts() =~= texts.push(key@));
            assert forall|i: int| 0 <= i < self.strings@.len() implies {
                let g = text_hash(#[trigger] self.strings@[i]@);
                &&& self.lookup@.contains_key(g)
                &&& self.lookup@[g]@.contains(i as usize)
            } by {
                let g = text_hash(self.strings@[i]@);
                if i < id {
                    assert(self.strings@[i] == old_strings[i]);
                    if g == h {
                        let j = choose|j: int| 0 <= j < old_lookup[h]@.len() && old_lookup[h]@[j] == i as usize;
                        assert(self.lookup@[h]@[j] == i as usize);
                    }
                } else {
                    assert(self.lookup@[h]@[self.lookup@[h]@.len() - 1] == id);
                }
            }
            assert forall|g: u64, k: int| #[trigger] self.lookup@.contains_key(g) && 0 <= k < self.lookup@[g]@.len()
                implies {
                let x = #[trigger] self.lookup@[g]@[k];
                &&& x < self.strings@.len()
                &&& text_hash(self.strings@[x as int]@) == g
            } by {
                let x = self.lookup@[g]@[k];
                if g != h || k < self.lookup@[g]@.len() - 1 {
                    assert(old_lookup.contains_key(g));
                    assert(x == old_lookup[g]@[k]);
                    assert(self.strings@[x as int] == old_strings[x as int]);
                }
            }
            assert(self.texts().no_duplicates()) by {
                assert forall|i: int, j: int| 0 <= i < self.texts().len() && 0 <= j < self.texts().len() && i != j
                    implies self.texts()[i] != self.texts()[j] by {
                    if i < id && j < id {
                        assert(texts[i] != texts[j]);
                    } else if i == id {
                        assert(texts[j] != key@) by {
                            if texts[j] == key@ { assert(texts.contains(key@)); }
                        }
                    } else {
                        assert(texts[i] != key@) by {
                            if texts[i] == key@ { assert(texts.contains(key@)); }
                        }
                    }
                }
            }
        }
        Symbol(id)
    }

    /// The text of `sym`.
    pub fn get(&self, sym: Symbol) -> (r: &str)
        requires
            self.wf(),
            sym.0 < self.texts().len(),
        ensures
            r@ == self.texts()[sym.0 as int],
    {
        self.strings[sym.0].as_str()
    }
}

/// Interning a text twice gives the same symbol and leaves the table as the
/// first time left it, and the symbol resolves to the text.
pub proof fn lemma_intern_twice(texts: Seq<Seq<char>>, s: Seq<char>)
    requires
        texts.no_duplicates(),
    ensures
        symbol_of(interned(texts, s), s) == symbol_of(texts, s),
        interned(interned(texts, s), s) == interned(texts, s),
        interned(texts, s)[symbol_of(texts, s) as int] == s,
{
    let t = interned(texts, s);
    if texts.contains(s) {
        let i = choose|i: nat| i < texts.len() && texts[i as int] == s;
    } else {
        assert(t[texts.len() as int] == s);
        assert(t.contains(s));
        let i = choose|i: nat| i < t.len() && t[i as int] == s;
        if i < texts.len() {
            assert(texts[i as int] == s);
            assert(texts.contains(s));
        }
    }
}

} // verus!
